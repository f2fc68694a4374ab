//! Placing the VM's process in the pod's cgroup.

use crate::paths;
use crate::text;
use vstd::prelude::*;

verus! {

/// The pieces that are not empty.
pub open spec fn nonempty(v: Seq<Seq<char>>) -> Seq<Seq<char>>
    decreases v.len(),
{
    if v.len() == 0 {
        Seq::empty()
    } else if v.last().len() > 0 {
        nonempty(v.drop_last()).push(v.last())
    } else {
        nonempty(v.drop_last())
    }
}

/// The segments of a path.
pub open spec fn segments(path: Seq<char>) -> Seq<Seq<char>> {
    nonempty(text::split(path, '/'))
}

/// A segment as part of a unit name: `-` separates levels there, so it becomes `_`.
pub open spec fn unit_part(s: Seq<char>) -> Seq<char> {
    text::replaced(s, '-', "_"@)
}

/// The name of the slice for some segments, without its suffix: the segments' unit parts, with `-`
/// between them. Where the first ones are empty they leave no trace.
pub open spec fn slice_name(parts: Seq<Seq<char>>) -> Seq<char>
    decreases parts.len(),
{
    if parts.len() == 0 {
        Seq::empty()
    } else {
        let prefix = slice_name(parts.drop_last());
        if prefix.len() == 0 {
            unit_part(parts.last())
        } else {
            prefix + "-"@ + unit_part(parts.last())
        }
    }
}

/// The slices for each leading part of some segments, from the outside in.
pub open spec fn slices(parts: Seq<Seq<char>>) -> Seq<char>
    decreases parts.len(),
{
    if parts.len() == 0 {
        Seq::empty()
    } else {
        slices(parts.drop_last()) + slice_name(parts) + ".slice/"@
    }
}

/// The systemd path for a kubelet-style cgroup path: a slice for each segment but the last, which
/// is a scope.
pub open spec fn systemd_path(path: Seq<char>) -> Seq<char> {
    let parts = segments(path);
    if parts.len() == 0 {
        path
    } else {
        slices(parts.drop_last()) + "cri-containerd-"@ + unit_part(parts.last()) + ".scope"@
    }
}

fn nonempty_of(v: &Vec<String>) -> (res: Vec<String>)
    ensures
        text::strings(res@) == nonempty(text::strings(v@)),
{
    let ghost p = text::strings(v@);
    let mut out: Vec<String> = Vec::new();
    let mut i: usize = 0;
    while i < v.len()
        invariant
            i <= v@.len(),
            p == text::strings(v@),
            text::strings(out@) =~= nonempty(p.take(i as int)),
        decreases v@.len() - i,
    {
        assert(p.take(i + 1).drop_last() =~= p.take(i as int));
        assert(p.take(i + 1).last() == v@[i as int]@);
        if !v[i].as_str().is_empty() {
            let ghost was = out@;
            let s: String = v[i].clone();
            let ghost sv = s@;
            out.push(s);
            assert(text::strings(out@) =~= text::strings(was).push(sv));
        }
        i += 1;
    }
    assert(p.take(v@.len() as int) =~= p);
    out
}

/// Converts a kubelet-style cgroup path to a systemd slice path.
pub fn to_systemd_cgroup_path(cgroups_path: &str) -> (res: String)
    ensures
        res@ == systemd_path(cgroups_path@),
{
    let parts: Vec<String> = nonempty_of(&text::split_on(cgroups_path, '/'));
    let ghost p = text::strings(parts@);
    assert(p.len() == parts@.len());
    if parts.len() == 0 {
        return cgroups_path.to_owned();
    }
    let last: usize = parts.len() - 1;
    let mut result: String = String::new();
    let mut prefix: String = String::new();
    let mut i: usize = 0;
    assert(result@ =~= slices(p.take(0)));
    assert(prefix@ =~= slice_name(p.take(0)));
    while i < last
        invariant
            i <= last,
            last == parts@.len() - 1,
            p == text::strings(parts@),
            result@ == slices(p.take(i as int)),
            prefix@ == slice_name(p.take(i as int)),
        decreases last - i,
    {
        assert(p.take(i + 1).drop_last() =~= p.take(i as int));
        assert(p.take(i + 1).last() == parts@[i as int]@);
        let sanitized: String = text::replace(parts[i].as_str(), '-', "_");
        let name: String = if prefix.as_str().is_empty() {
            sanitized
        } else {
            text::join3(prefix.as_str(), "-", sanitized.as_str())
        };
        result.append(name.as_str());
        result.append(".slice/");
        prefix = name;
        i += 1;
    }
    assert(p.take(last as int) =~= p.drop_last());
    let scope: String = text::replace(parts[last].as_str(), '-', "_");
    result.append("cri-containerd-");
    result.append(scope.as_str());
    result.append(".scope");
    result
}

/// `s` without the slashes at its beginning.
pub open spec fn relative(s: Seq<char>) -> Seq<char>
    decreases s.len(),
{
    if s.len() > 0 && s[0] == '/' {
        relative(s.skip(1))
    } else {
        s
    }
}

/// Removes the slashes at the beginning of a path.
pub fn strip_slashes(s: &str) -> (res: String)
    ensures
        res@ == relative(s@),
{
    let x: Vec<char> = text::to_chars(s);
    let mut i: usize = 0;
    assert(x@.skip(0) =~= x@);
    while i < x.len() && x[i] == '/'
        invariant
            i <= x@.len(),
            relative(s@) == relative(x@.skip(i as int)),
        decreases x@.len() - i,
    {
        assert(x@.skip(i as int).skip(1) =~= x@.skip(i + 1));
        i += 1;
    }
    let res: String = text::from_chars(&x, i, x.len());
    assert(res@ =~= x@.skip(i as int));
    res
}

/// The file into which a process is written to join the cgroup in a directory.
pub open spec fn procs(dir: Seq<char>) -> Seq<char> {
    paths::joined(dir, "cgroup.procs"@)
}

/// The files through which a pod's cgroup may be joined.
#[derive(Debug)]
pub struct CgroupFiles {
    /// In the unified hierarchy, under the path itself.
    pub unified: String,
    /// In the unified hierarchy, under the systemd path.
    pub systemd: String,
    /// In the hierarchies of the memory, CPU and process controllers.
    pub memory: String,
    pub cpu: String,
    pub pids: String,
}

/// The file in the hierarchy of one controller.
pub open spec fn controller_file(root: Seq<char>, controller: Seq<char>, path: Seq<char>) -> Seq<
    char,
> {
    procs(paths::joined(paths::joined(root, controller), relative(path)))
}

fn controller_path(root: &str, controller: &str, path: &str) -> (res: String)
    ensures
        res@ == procs(paths::joined(paths::joined(root@, controller@), path@)),
{
    let base: String = paths::join(root, controller);
    let dir: String = paths::join(base.as_str(), path);
    paths::join(dir.as_str(), "cgroup.procs")
}

/// The files through which the cgroup at a path may be joined.
pub fn cgroup_files(cgroups_path: &str, root: &str) -> (res: CgroupFiles)
    ensures
        res.unified@ == procs(paths::joined(root@, relative(cgroups_path@))),
        res.systemd@ == procs(paths::joined(root@, systemd_path(relative(cgroups_path@)))),
        res.memory@ == controller_file(root@, "memory"@, cgroups_path@),
        res.cpu@ == controller_file(root@, "cpu,cpuacct"@, cgroups_path@),
        res.pids@ == controller_file(root@, "pids"@, cgroups_path@),
{
    let path: String = strip_slashes(cgroups_path);
    let unified: String = paths::join(root, path.as_str());
    let slice: String = to_systemd_cgroup_path(path.as_str());
    let systemd: String = paths::join(root, slice.as_str());
    CgroupFiles {
        unified: paths::join(unified.as_str(), "cgroup.procs"),
        systemd: paths::join(systemd.as_str(), "cgroup.procs"),
        memory: controller_path(root, "memory", path.as_str()),
        cpu: controller_path(root, "cpu,cpuacct", path.as_str()),
        pids: controller_path(root, "pids", path.as_str()),
    }
}

/// Which of the files exist.
#[derive(Debug, Clone, Copy, PartialEq, Eq, Structural)]
pub struct CgroupPresence {
    pub unified: bool,
    pub systemd: bool,
    pub memory: bool,
    pub cpu: bool,
    pub pids: bool,
}

/// The files to write the process into: the unified file, else the systemd file, else those of
/// all controllers that have one.
pub open spec fn targets(f: CgroupFiles, p: CgroupPresence) -> Seq<Seq<char>> {
    if p.unified {
        seq![f.unified@]
    } else if p.systemd {
        seq![f.systemd@]
    } else {
        let none = Seq::<Seq<char>>::empty();
        let a = if p.memory {
            none.push(f.memory@)
        } else {
            none
        };
        let b = if p.cpu {
            a.push(f.cpu@)
        } else {
            a
        };
        if p.pids {
            b.push(f.pids@)
        } else {
            b
        }
    }
}

/// What is written to place a process in a cgroup.
#[derive(Debug)]
pub struct Placement {
    pub files: Vec<String>,
    /// What goes into each of the files.
    pub content: String,
}

/// Says what is written where to place a process in a pod's cgroup: its number in decimal, into the
/// files that are chosen. Where none exists, the process cannot be placed: nothing is ever created
/// in a cgroup tree.
pub fn place_in_pod_cgroup(
    pid: u32,
    files: &CgroupFiles,
    present: CgroupPresence,
) -> (res: Option<Placement>)
    ensures
        match res {
            Some(p) => {
                &&& text::strings(p.files@) == targets(*files, present)
                &&& p.files@.len() > 0
                &&& p.content@ == text::dec(pid as nat)
            },
            None => targets(*files, present).len() == 0,
        },
{
    let mut out: Vec<String> = Vec::new();
    if present.unified {
        out.push(files.unified.clone());
    } else if present.systemd {
        out.push(files.systemd.clone());
    } else {
        if present.memory {
            out.push(files.memory.clone());
        }
        if present.cpu {
            out.push(files.cpu.clone());
        }
        if present.pids {
            out.push(files.pids.clone());
        }
    }
    assert(text::strings(out@) =~= targets(*files, present));
    if out.len() == 0 {
        None
    } else {
        Some(Placement { files: out, content: text::decimal(pid as u64) })
    }
}

/// A process is written only into files that exist, and it is written somewhere exactly where one
/// of them does.
pub proof fn law_only_existing_files_are_written(f: CgroupFiles, p: CgroupPresence)
    ensures
        forall|i: int|
            0 <= i < targets(f, p).len() ==> {
                let t = #[trigger] targets(f, p)[i];
                ||| p.unified && t == f.unified@
                ||| p.systemd && t == f.systemd@
                ||| p.memory && t == f.memory@
                ||| p.cpu && t == f.cpu@
                ||| p.pids && t == f.pids@
            },
        targets(f, p).len() > 0 <==> p.unified || p.systemd || p.memory || p.cpu || p.pids,
{
}

/// The process is placed under the path itself where that exists; else under the systemd path; else
/// under each of the three controllers that exists.
pub proof fn law_where_process_is_placed(f: CgroupFiles, p: CgroupPresence)
    ensures
        p.unified ==> targets(f, p) == seq![f.unified@],
        !p.unified && p.systemd ==> targets(f, p) == seq![f.systemd@],
        !p.unified && !p.systemd && p.memory ==> targets(f, p).contains(f.memory@),
        !p.unified && !p.systemd && p.cpu ==> targets(f, p).contains(f.cpu@),
        !p.unified && !p.systemd && p.pids ==> targets(f, p).contains(f.pids@),
{
    let t = targets(f, p);
    if !p.unified && !p.systemd {
        if p.memory {
            assert(t[0] == f.memory@);
        }
        if p.cpu {
            assert(t[if p.memory {
                1int
            } else {
                0
            }] == f.cpu@);
        }
        if p.pids {
            assert(t[t.len() - 1] == f.pids@);
        }
    }
}

/// What is left of a path without its leading slashes begins with none, and the path is some slashes
/// and that.
pub proof fn law_relative(s: Seq<char>) -> (n: nat)
    ensures
        n <= s.len(),
        forall|i: int| 0 <= i < n ==> #[trigger] s[i] == '/',
        relative(s) == s.skip(n as int),
        relative(s).len() > 0 ==> relative(s)[0] != '/',
    decreases s.len(),
{
    if s.len() > 0 && s[0] == '/' {
        let m = law_relative(s.skip(1));
        assert forall|i: int| 0 <= i < m + 1 implies #[trigger] s[i] == '/' by {
            if i > 0 {
                assert(s.skip(1)[i - 1] == s[i]);
            }
        }
        assert(s.skip(1).skip(m as int) =~= s.skip((m + 1) as int));
        m + 1
    } else {
        assert(s.skip(0) =~= s);
        0
    }
}

/// The segments of a path are its pieces between slashes that are not empty, in order.
pub proof fn law_segments(v: Seq<Seq<char>>) -> (from: Seq<int>)
    ensures
        from.len() == nonempty(v).len(),
        forall|i: int|
            0 <= i < from.len() ==> 0 <= #[trigger] from[i] < v.len() && v[from[i]].len() > 0
                && nonempty(v)[i] == v[from[i]],
        forall|i: int, j: int| 0 <= i < j < from.len() ==> #[trigger] from[i] < #[trigger] from[j],
        forall|k: int|
            0 <= k < v.len() && (#[trigger] v[k]).len() > 0 ==> exists|i: int|
                0 <= i < from.len() && #[trigger] from[i] == k,
    decreases v.len(),
{
    if v.len() == 0 {
        Seq::empty()
    } else {
        let most = v.drop_last();
        let n = v.len() - 1;
        let before = law_segments(most);
        let res = if v.last().len() > 0 {
            before.push(n)
        } else {
            before
        };
        assert forall|i: int| 0 <= i < res.len() implies 0 <= #[trigger] res[i] < v.len()
            && v[res[i]].len() > 0 && nonempty(v)[i] == v[res[i]] by {
            if i < before.len() {
                assert(res[i] == before[i]);
                assert(most[before[i]] == v[res[i]]);
            }
        }
        assert forall|k: int| 0 <= k < v.len() && (#[trigger] v[k]).len() > 0 implies exists|
            i: int,
        |
            0 <= i < res.len() && #[trigger] res[i] == k by {
            if k < n {
                assert(most[k] == v[k]);
                let i = choose|i: int| 0 <= i < before.len() && #[trigger] before[i] == k;
                assert(res[i] == k);
            } else {
                assert(res[before.len() as int] == n);
            }
        }
        res
    }
}

/// The parts of a path as they stand in the name of a unit: each with its dashes as underscores.
pub open spec fn unit_parts(parts: Seq<Seq<char>>) -> Seq<Seq<char>> {
    Seq::new(parts.len(), |i: int| unit_part(parts[i]))
}

proof fn lemma_unit_part(s: Seq<char>)
    ensures
        unit_part(s).len() == s.len(),
        forall|i: int|
            0 <= i < s.len() ==> #[trigger] unit_part(s)[i] == if s[i] == '-' {
                '_'
            } else {
                s[i]
            },
    decreases s.len(),
{
    reveal_strlit("_");
    assert("_"@ =~= seq!['_']);
    if s.len() > 0 {
        lemma_unit_part(s.drop_last());
        let before = unit_part(s.drop_last());
        assert forall|i: int| 0 <= i < s.len() implies #[trigger] unit_part(s)[i] == if s[i]
            == '-' {
            '_'
        } else {
            s[i]
        } by {
            if i < s.len() - 1 {
                assert(before[i] == unit_part(s)[i]);
                assert(s.drop_last()[i] == s[i]);
            }
        }
    }
}

/// A part of a path keeps its length in the name of a unit, and all its characters but the dashes,
/// which are underscores there.
pub proof fn law_unit_part(s: Seq<char>)
    ensures
        unit_part(s).len() == s.len(),
        forall|i: int|
            0 <= i < s.len() ==> #[trigger] unit_part(s)[i] == if s[i] == '-' {
                '_'
            } else {
                s[i]
            },
        !unit_part(s).contains('-'),
{
    lemma_unit_part(s);
}

/// The name of a slice is that of its parents and its own with a dash in between.
pub proof fn law_slice_name(parts: Seq<Seq<char>>)
    requires
        forall|i: int| 0 <= i < parts.len() ==> (#[trigger] parts[i]).len() > 0,
    ensures
        slice_name(parts) == text::joined(unit_parts(parts), seq!['-']),
        parts.len() > 0 ==> slice_name(parts).len() > 0,
    decreases parts.len(),
{
    reveal_strlit("-");
    assert("-"@ =~= seq!['-']);
    if parts.len() > 0 {
        let most = parts.drop_last();
        assert forall|i: int| 0 <= i < most.len() implies (#[trigger] most[i]).len() > 0 by {
            assert(most[i] == parts[i]);
        }
        law_slice_name(most);
        assert(parts[parts.len() - 1].len() > 0);
        lemma_unit_part(parts.last());
        assert(unit_parts(parts).drop_last() =~= unit_parts(most));
        if most.len() == 0 {
            assert(slice_name(most) =~= Seq::<char>::empty());
            assert(unit_parts(parts)[0] == unit_part(parts.last()));
        }
    }
}

/// The directories of a systemd path: a slice for each part of the path but the last, each below the
/// one in front of it, and then the scope of the container.
pub open spec fn unit_dirs(parts: Seq<Seq<char>>) -> Seq<Seq<char>> {
    Seq::new(
        parts.len(),
        |i: int|
            if i == parts.len() - 1 {
                "cri-containerd-"@ + unit_part(parts[i]) + ".scope"@
            } else {
                text::joined(unit_parts(parts.take(i + 1)), seq!['-']) + ".slice"@
            },
    )
}

/// The systemd path of a container is made of the slices of its parents, each named after all parts
/// down to it, and of its scope.
pub proof fn law_systemd_path(path: Seq<char>)
    ensures
        segments(path).len() > 0 ==> systemd_path(path) == text::joined(
            unit_dirs(segments(path)),
            seq!['/'],
        ),
        segments(path).len() == 0 ==> systemd_path(path) == path,
{
    let parts = segments(path);
    if parts.len() > 0 {
        let from = law_segments(text::split(path, '/'));
        assert forall|i: int| 0 <= i < parts.len() implies (#[trigger] parts[i]).len() > 0 by {
            assert(0 <= from[i]);
        }
        let most = parts.drop_last();
        lemma_slices(parts, most.len());
        assert(parts.take(most.len() as int) =~= most);
        let dirs = unit_dirs(parts);
        let last = "cri-containerd-"@ + unit_part(parts.last()) + ".scope"@;
        assert(dirs.last() == last);
        assert(dirs.drop_last() =~= dirs.take(most.len() as int));
        if most.len() == 0 {
            assert(slices(most) =~= Seq::<char>::empty());
            assert(systemd_path(path) =~= last);
        } else {
            assert(systemd_path(path) =~= text::joined(dirs.drop_last(), seq!['/']) + seq!['/']
                + last);
        }
    }
}

proof fn lemma_slices(parts: Seq<Seq<char>>, n: nat)
    requires
        n < parts.len(),
        forall|i: int| 0 <= i < parts.len() ==> (#[trigger] parts[i]).len() > 0,
    ensures
        slices(parts.take(n as int)) == if n == 0 {
            Seq::empty()
        } else {
            text::joined(unit_dirs(parts).take(n as int), seq!['/']) + seq!['/']
        },
    decreases n,
{
    reveal_strlit(".slice/");
    reveal_strlit(".slice");
    assert(".slice/"@ =~= ".slice"@ + seq!['/']);
    if n > 0 {
        let t = parts.take(n as int);
        let dirs = unit_dirs(parts).take(n as int);
        lemma_slices(parts, (n - 1) as nat);
        assert(t.drop_last() =~= parts.take(n - 1));
        assert forall|i: int| 0 <= i < t.len() implies (#[trigger] t[i]).len() > 0 by {
            assert(t[i] == parts[i]);
        }
        law_slice_name(t);
        assert(dirs.last() == slice_name(t) + ".slice"@);
        assert(dirs.drop_last() =~= unit_dirs(parts).take(n - 1));
        if n == 1 {
            assert(slices(t.drop_last()) =~= Seq::<char>::empty());
            assert(dirs.len() == 1);
            assert(slices(t) =~= dirs[0] + seq!['/']);
        } else {
            assert(slices(t) =~= text::joined(dirs, seq!['/']) + seq!['/']);
        }
    }
}

} // verus!
