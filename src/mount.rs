//! Mount-table lines, and the directory where a control group's files live.

use vstd::prelude::*;
use crate::bytes::{bytes_eq, has_field, split, split_fields, views};
use crate::cgroup::{cpu_token, load_cpu_spec, opt_view, CgroupVersion, Subsys};

verus! {

/// A control-group mount: the path within the control-group tree that is
/// mounted, where it is mounted, and the version of the hierarchy.
#[derive(Debug)]
pub struct MountInfo {
    pub root: Vec<u8>,
    pub mount_point: Vec<u8>,
    pub version: CgroupVersion,
}

/// What a `MountInfo` holds, as plain values.
pub struct MountInfoView {
    pub root: Seq<u8>,
    pub mount_point: Seq<u8>,
    pub version: CgroupVersion,
}

impl View for MountInfo {
    type V = MountInfoView;

    open spec fn view(&self) -> MountInfoView {
        MountInfoView { root: self.root@, mount_point: self.mount_point@, version: self.version }
    }
}

/// The view of an optional mount.
pub open spec fn mount_opt_view(o: Option<MountInfo>) -> Option<MountInfoView> {
    match o {
        Some(m) => Some(m@),
        None => None,
    }
}

/// The view of an optional path.
pub open spec fn path_opt_view(o: Option<Vec<u8>>) -> Option<Seq<u8>> {
    match o {
        Some(p) => Some(p@),
        None => None,
    }
}

/// The field that ends the optional fields of a mount-table line.
pub open spec fn dash() -> Seq<u8> {
    seq![45u8]
}

/// The filesystem type of a V1 control-group mount.
pub open spec fn cgroup_fs() -> Seq<u8> {
    seq![99u8, 103u8, 114u8, 111u8, 117u8, 112u8]
}

/// The filesystem type of the unified control-group mount.
pub open spec fn cgroup2_fs() -> Seq<u8> {
    cgroup_fs().push(50u8)
}

/// The index of the first `-` field at `k` or after, or the number of fields
/// where there is none.
pub open spec fn dash_from(f: Seq<Seq<u8>>, k: int) -> int
    decreases f.len() - k,
{
    if k >= f.len() {
        f.len() as int
    } else if f[k] == dash() {
        k
    } else {
        dash_from(f, k + 1)
    }
}

/// What a mount-table line says: the fifth and sixth space-separated fields
/// are the mounted root and the mount point; after the first `-` field from
/// the seventh on comes the filesystem type, `cgroup` (V1) or `cgroup2` (V2);
/// a V1 mount counts only where its super options, two fields further on, hold
/// `cpu`. Any other line gives `None`.
pub open spec fn mount_parse_spec(line: Seq<u8>) -> Option<MountInfoView> {
    let f = split_fields(line, 32u8);
    let d = dash_from(f, 5);
    if f.len() < 5 || d + 1 >= f.len() {
        None
    } else if f[d + 1] == cgroup2_fs() {
        Some(MountInfoView { root: f[3], mount_point: f[4], version: CgroupVersion::V2 })
    } else if f[d + 1] == cgroup_fs() && d + 3 < f.len() && split_fields(f[d + 3], 44u8).contains(
        cpu_token(),
    ) {
        Some(MountInfoView { root: f[3], mount_point: f[4], version: CgroupVersion::V1 })
    } else {
        None
    }
}

/// The first line of the mount table that is a mount of the given version.
pub open spec fn mount_find_spec(lines: Seq<Seq<u8>>, version: CgroupVersion) -> Option<
    MountInfoView,
>
    decreases lines.len(),
{
    if lines.len() == 0 {
        None
    } else {
        let acc = mount_find_spec(lines.drop_last(), version);
        if acc is Some {
            acc
        } else {
            match mount_parse_spec(lines.last()) {
                Some(m) => if m.version == version {
                    Some(m)
                } else {
                    None
                },
                None => None,
            }
        }
    }
}

/// The directory that holds the files of group `base` of a hierarchy whose
/// path `root` is mounted at `mount_point`: `None` where `base` does not lie
/// under `root`, component by component.
pub open spec fn translate_spec(root: Seq<u8>, mount_point: Seq<u8>, base: Seq<u8>) -> Option<
    Seq<u8>,
> {
    if !(root.len() <= base.len() && base.subrange(0, root.len() as int) == root) {
        None
    } else {
        let rest = base.skip(root.len() as int);
        if rest.len() == 0 {
            Some(mount_point)
        } else if rest[0] == 47u8 {
            Some(mount_point + rest)
        } else if root.len() > 0 && root.last() == 47u8 {
            Some(mount_point.push(47u8) + rest)
        } else {
            None
        }
    }
}

/// The version and directory of the control group that governs the CPU: the
/// record chosen from the membership lines, the first mount of its version in
/// the mount table, and the group's path translated through that mount.
pub open spec fn cpu_dir_spec(cgroup_lines: Seq<Seq<u8>>, mount_lines: Seq<Seq<u8>>) -> Option<
    (CgroupVersion, Seq<u8>),
> {
    match load_cpu_spec(cgroup_lines) {
        None => None,
        Some(sub) => match mount_find_spec(mount_lines, sub.version) {
            None => None,
            Some(m) => match translate_spec(m.root, m.mount_point, sub.base) {
                None => None,
                Some(p) => Some((sub.version, p)),
            },
        },
    }
}

/// Locates the directory that holds the CPU controller's files, from the
/// lines of the process's membership file and of its mount table.
pub fn find_cpu_dir(cgroup_lines: &Vec<Vec<u8>>, mount_lines: &Vec<Vec<u8>>) -> (r: Option<
    (CgroupVersion, Vec<u8>),
>)
    ensures
        match r {
            None => cpu_dir_spec(views(cgroup_lines@), views(mount_lines@)) is None,
            Some((v, p)) => cpu_dir_spec(views(cgroup_lines@), views(mount_lines@)) == Some(
                (v, p@),
            ),
        },
{
    let sub = match Subsys::load_cpu(cgroup_lines) {
        Some(sub) => sub,
        None => return None,
    };
    let m = match MountInfo::load_cpu(mount_lines, sub.version) {
        Some(m) => m,
        None => return None,
    };
    match m.translate(&sub) {
        Some(p) => Some((sub.version, p)),
        None => None,
    }
}

impl MountInfo {
    /// Parses one line of the mount table.
    pub fn parse_line(line: &[u8]) -> (r: Option<MountInfo>)
        ensures
            mount_opt_view(r) == mount_parse_spec(line@),
    {
        let f = split(line, 32u8);
        let ghost fv = views(f@);
        assert(fv.len() == f@.len());
        if f.len() < 5 {
            return None;
        }
        let mut d: usize = 5;
        let mut at_dash = false;
        while !at_dash && d < f.len()
            invariant
                5 <= d <= f@.len(),
                fv == views(f@),
                dash_from(fv, 5) == dash_from(fv, d as int),
                at_dash ==> d < f@.len() && fv[d as int] == dash(),
            decreases f@.len() - d, if at_dash { 0int } else { 1int },
        {
            let dash_field: [u8; 1] = [45u8];
            assert(dash_field@ =~= dash());
            assert(fv[d as int] == f@[d as int]@);
            if bytes_eq(f[d].as_slice(), dash_field.as_slice()) {
                at_dash = true;
            } else {
                d = d + 1;
            }
        }
        assert(dash_from(fv, d as int) == d);
        if d >= f.len() - 1 {
            return None;
        }
        let cgroup2: [u8; 7] = [99u8, 103u8, 114u8, 111u8, 117u8, 112u8, 50u8];
        let cgroup: [u8; 6] = [99u8, 103u8, 114u8, 111u8, 117u8, 112u8];
        assert(cgroup2@ =~= cgroup2_fs());
        assert(cgroup@ =~= cgroup_fs());
        assert(fv[d + 1] == f@[d + 1]@);
        assert(fv[3] == f@[3]@ && fv[4] == f@[4]@);
        let version = if bytes_eq(f[d + 1].as_slice(), cgroup2.as_slice()) {
            CgroupVersion::V2
        } else if bytes_eq(f[d + 1].as_slice(), cgroup.as_slice()) {
            if f.len() - d <= 3 {
                return None;
            }
            assert(fv[d + 3] == f@[d + 3]@);
            let cpu: [u8; 3] = [99u8, 112u8, 117u8];
            assert(cpu@ =~= cpu_token());
            if !has_field(f[d + 3].as_slice(), 44u8, cpu.as_slice()) {
                return None;
            }
            CgroupVersion::V1
        } else {
            return None;
        };
        Some(MountInfo { root: f[3].clone(), mount_point: f[4].clone(), version })
    }

    /// Finds the first mount of the given version among the lines of the mount
    /// table; lines that do not parse are passed over.
    pub fn load_cpu(lines: &Vec<Vec<u8>>, version: CgroupVersion) -> (r: Option<MountInfo>)
        ensures
            mount_opt_view(r) == mount_find_spec(views(lines@), version),
    {
        let mut found: Option<MountInfo> = None;
        let mut i: usize = 0;
        while i < lines.len()
            invariant
                i <= lines@.len(),
                mount_opt_view(found) == mount_find_spec(views(lines@).subrange(0, i as int), version),
            decreases lines@.len() - i,
        {
            assert(views(lines@).subrange(0, i as int + 1).drop_last() =~= views(
                lines@,
            ).subrange(0, i as int));
            assert(views(lines@).subrange(0, i as int + 1).last() == lines@[i as int]@);
            if found.is_none() {
                match MountInfo::parse_line(lines[i].as_slice()) {
                    Some(m) => {
                        if m.version == version {
                            found = Some(m);
                        }
                    },
                    None => {},
                }
            }
            i = i + 1;
        }
        assert(views(lines@).subrange(0, lines@.len() as int) =~= views(lines@));
        found
    }

    /// The directory that holds the control files of `subsys`'s group, reached
    /// through this mount.
    pub fn translate(&self, subsys: &Subsys) -> (r: Option<Vec<u8>>)
        ensures
            path_opt_view(r) == translate_spec(self.root@, self.mount_point@, subsys.base@),
    {
        if self.root.len() > subsys.base.len() {
            return None;
        }
        let mut i: usize = 0;
        while i < self.root.len()
            invariant
                i <= self.root@.len() <= subsys.base@.len(),
                forall|j: int| 0 <= j < i ==> self.root@[j] == subsys.base@[j],
            decreases self.root@.len() - i,
        {
            if self.root[i] != subsys.base[i] {
                assert(self.root@[i as int] != subsys.base@.subrange(0, self.root@.len() as int)[i as int]);
                assert(self.root@ != subsys.base@.subrange(0, self.root@.len() as int));
                return None;
            }
            i = i + 1;
        }
        assert(subsys.base@.subrange(0, self.root@.len() as int) =~= self.root@);
        let ghost rest = subsys.base@.skip(self.root@.len() as int);
        let mut path: Vec<u8> = self.mount_point.clone();
        if self.root.len() < subsys.base.len() && subsys.base[self.root.len()] != 47u8 {
            if self.root.len() > 0 && self.root[self.root.len() - 1] == 47u8 {
                path.push(47u8);
            } else {
                return None;
            }
        }
        let ghost start = path@;
        let mut k: usize = self.root.len();
        while k < subsys.base.len()
            invariant
                self.root@.len() <= k <= subsys.base@.len(),
                path@ == start + subsys.base@.subrange(self.root@.len() as int, k as int),
            decreases subsys.base@.len() - k,
        {
            path.push(subsys.base[k]);
            assert(start + subsys.base@.subrange(self.root@.len() as int, k as int + 1) =~= (start
                + subsys.base@.subrange(self.root@.len() as int, k as int)).push(subsys.base@[k as int]));
            k = k + 1;
        }
        assert(subsys.base@.subrange(self.root@.len() as int, subsys.base@.len() as int) =~= rest);
        assert(start + rest =~= path@);
        assert(rest.len() == 0 ==> start + rest =~= start);
        assert(rest.len() > 0 ==> rest[0] == subsys.base@[self.root@.len() as int]);
        Some(path)
    }
}

} // verus!
