//! What `/proc/self/mountinfo` says of a container's rootfs.

use crate::hash;
use crate::text;
use vstd::prelude::*;

verus! {

/// The value of the first option among `opts[from..to]` that is `lowerdir`.
pub open spec fn lowerdir_in(opts: Seq<Seq<char>>, from: int, to: int) -> Option<Seq<char>>
    decreases to - from,
{
    if from < 0 || from >= to || to > opts.len() {
        None
    } else if text::has_prefix(opts[from], "lowerdir="@) {
        Some(opts[from].skip("lowerdir="@.len() as int))
    } else {
        lowerdir_in(opts, from + 1, to)
    }
}

/// The place of the separator between the optional fields and the file system type; the number of
/// words where there is none.
pub open spec fn separator(w: Seq<Seq<char>>, from: int) -> int
    decreases w.len() - from,
{
    if from < 0 || from >= w.len() {
        w.len() as int
    } else if w[from] == "-"@ {
        from
    } else {
        separator(w, from + 1)
    }
}

/// The words of a line that describes a mount at `path` of a file system type.
pub open spec fn mounted(w: Seq<Seq<char>>, path: Seq<char>, fs: Seq<char>) -> bool {
    &&& w.len() > 4
    &&& w[4] == path
    &&& separator(w, 0) + 1 < w.len()
    &&& w[separator(w, 0) + 1] == fs
}

/// The options of the file system: the third word behind the separator.
pub open spec fn super_options(w: Seq<Seq<char>>) -> Seq<Seq<char>> {
    let sep = separator(w, 0);
    text::split(
        if sep + 3 < w.len() {
            w[sep + 3]
        } else {
            Seq::empty()
        },
        ',',
    )
}

/// The lower directories among the options of the file system.
pub open spec fn super_lowerdir(w: Seq<Seq<char>>) -> Option<Seq<char>> {
    lowerdir_in(super_options(w), 0, super_options(w).len() as int)
}

/// The lower directories among the words in front of the separator.
pub open spec fn mount_lowerdir(w: Seq<Seq<char>>) -> Option<Seq<char>> {
    lowerdir_in(w, 5, separator(w, 0))
}

/// The first of two, where there is one.
pub open spec fn either(a: Option<Seq<char>>, b: Option<Seq<char>>) -> Option<Seq<char>> {
    if a is Some {
        a
    } else {
        b
    }
}

fn find_lowerdir(opts: &Vec<String>, from: usize, to: usize) -> (res: Option<String>)
    requires
        to <= opts@.len(),
    ensures
        match res {
            Some(d) => lowerdir_in(text::strings(opts@), from as int, to as int) == Some(d@),
            None => lowerdir_in(text::strings(opts@), from as int, to as int) is None,
        },
{
    let ghost o = text::strings(opts@);
    let mut i: usize = from;
    while i < to
        invariant
            from <= i,
            to <= opts@.len(),
            o == text::strings(opts@),
            lowerdir_in(o, from as int, to as int) == lowerdir_in(o, i as int, to as int),
        decreases to - i,
    {
        match text::strip_prefix(opts[i].as_str(), "lowerdir=") {
            Some(d) => {
                return Some(d);
            },
            None => {},
        }
        i += 1;
    }
    None
}

fn find_separator(w: &Vec<String>) -> (res: usize)
    ensures
        res == separator(text::strings(w@), 0),
        res <= w@.len(),
{
    let ghost o = text::strings(w@);
    let mut i: usize = 0;
    while i < w.len()
        invariant
            i <= w@.len(),
            o == text::strings(w@),
            separator(o, 0) == separator(o, i as int),
        decreases w@.len() - i,
    {
        if text::same(w[i].as_str(), "-") {
            return i;
        }
        i += 1;
    }
    i
}

fn is_mounted(w: &Vec<String>, path: &str, fs: &str) -> (res: bool)
    ensures
        res == mounted(text::strings(w@), path@, fs@),
{
    if w.len() <= 4 || !text::same(w[4].as_str(), path) {
        return false;
    }
    let sep: usize = find_separator(w);
    sep < w.len() && w.len() - sep > 1 && text::same(w[sep + 1].as_str(), fs)
}

/// The lower directories in the options of the file system, and those in front of the separator.
fn lowerdirs_of(w: &Vec<String>) -> (res: (Option<String>, Option<String>))
    requires
        separator(text::strings(w@), 0) < w@.len(),
    ensures
        text::opt_string(res.0) == super_lowerdir(text::strings(w@)),
        text::opt_string(res.1) == mount_lowerdir(text::strings(w@)),
{
    let sep: usize = find_separator(w);
    let options: Vec<String> = if w.len() - sep > 3 {
        text::split_on(w[sep + 3].as_str(), ',')
    } else {
        let none: String = String::new();
        assert(none@ =~= Seq::<char>::empty());
        text::split_on(none.as_str(), ',')
    };
    proof {
        assert(text::strings(options@).len() == options@.len());
        assert(text::strings(options@) == super_options(text::strings(w@)));
    }
    (find_lowerdir(&options, 0, options.len()), find_lowerdir(w, 5, sep))
}

/// The lower directories that the first mount line of an overlay at `path` names, where one does.
pub open spec fn first_lowerdir(lines: Seq<Seq<char>>, path: Seq<char>) -> Option<Seq<char>>
    decreases lines.len(),
{
    if lines.len() == 0 {
        None
    } else {
        let w = text::words(lines[0]);
        if mounted(w, path, "overlay"@) && either(super_lowerdir(w), mount_lowerdir(w)) is Some {
            either(super_lowerdir(w), mount_lowerdir(w))
        } else {
            first_lowerdir(lines.skip(1), path)
        }
    }
}

/// The key of the erofs image for a rootfs: the hash of the overlay's lower directories. There is
/// none where the rootfs is not an overlay mount.
pub fn erofs_cache_key_from_mountinfo(rootfs_path: &str, mountinfo: &str) -> (res: Option<String>)
    ensures
        text::opt_string(res) == match first_lowerdir(
            text::lines(mountinfo@),
            rootfs_path@,
        ) {
            Some(d) => Some(hash::stable_hash(d)),
            None => None,
        },
        text::opt_string(res) == cache_key(mountinfo@, rootfs_path@),
{
    let lines: Vec<String> = text::lines_of(mountinfo);
    let ghost l = text::strings(lines@);
    let mut i: usize = 0;
    assert(l.skip(0) =~= l);
    while i < lines.len()
        invariant
            i <= lines@.len(),
            l == text::strings(lines@),
            l == text::lines(mountinfo@),
            first_lowerdir(l, rootfs_path@) == first_lowerdir(l.skip(i as int), rootfs_path@),
        decreases lines@.len() - i,
    {
        assert(l.skip(i as int)[0] == lines@[i as int]@);
        assert(l.skip(i as int).skip(1) =~= l.skip(i + 1));
        let w: Vec<String> = text::words_of(lines[i].as_str());
        assert(text::strings(w@).len() == w@.len());
        if is_mounted(&w, rootfs_path, "overlay") {
            let (sup, mnt) = lowerdirs_of(&w);
            if let Some(d) = sup {
                return Some(hash::stable_hash_hex(d.as_str()));
            }
            if let Some(d) = mnt {
                return Some(hash::stable_hash_hex(d.as_str()));
            }
        }
        i += 1;
    }
    None
}

/// The lower directories that mount lines name for an overlay at `path`: the last line that names
/// some decides, and in a line those in front of the separator.
pub open spec fn last_lowerdir(lines: Seq<Seq<char>>, path: Seq<char>) -> Option<Seq<char>>
    decreases lines.len(),
{
    if lines.len() == 0 {
        None
    } else {
        let w = text::words(lines.last());
        if mounted(w, path, "overlay"@) && either(mount_lowerdir(w), super_lowerdir(w)) is Some {
            either(mount_lowerdir(w), super_lowerdir(w))
        } else {
            last_lowerdir(lines.drop_last(), path)
        }
    }
}

fn find_last_lowerdir(lines: &Vec<String>, path: &str) -> (res: Option<String>)
    ensures
        text::opt_string(res) == last_lowerdir(text::strings(lines@), path@),
{
    let ghost l = text::strings(lines@);
    let mut i: usize = lines.len();
    assert(l.take(i as int) =~= l);
    while i > 0
        invariant
            i <= lines@.len(),
            l == text::strings(lines@),
            last_lowerdir(l, path@) == last_lowerdir(l.take(i as int), path@),
        decreases i,
    {
        assert(l.take(i as int).drop_last() =~= l.take(i - 1));
        assert(l.take(i as int).last() == lines@[i - 1]@);
        i -= 1;
        let w: Vec<String> = text::words_of(lines[i].as_str());
        assert(text::strings(w@).len() == w@.len());
        if is_mounted(&w, path, "overlay") {
            let (sup, mnt) = lowerdirs_of(&w);
            if mnt.is_some() {
                return mnt;
            }
            if sup.is_some() {
                return sup;
            }
        }
    }
    None
}

/// The source of the erofs mount that a line describes at `dir`.
pub open spec fn erofs_source(line: Seq<char>, dir: Seq<char>) -> Option<Seq<char>> {
    let w = text::words(line);
    if mounted(w, dir, "erofs"@) && separator(w, 0) + 2 < w.len() {
        Some(w[separator(w, 0) + 2])
    } else {
        None
    }
}

/// The sources of all erofs mounts at `dir`, in the order of the lines.
pub open spec fn sources_at(lines: Seq<Seq<char>>, dir: Seq<char>) -> Seq<Seq<char>>
    decreases lines.len(),
{
    if lines.len() == 0 {
        Seq::empty()
    } else {
        let before = sources_at(lines.drop_last(), dir);
        match erofs_source(lines.last(), dir) {
            Some(s) => before.push(s),
            None => before,
        }
    }
}

/// The sources of the erofs mounts at each of some directories, directory by directory.
pub open spec fn layer_sources(lines: Seq<Seq<char>>, dirs: Seq<Seq<char>>) -> Seq<Seq<char>>
    decreases dirs.len(),
{
    if dirs.len() == 0 {
        Seq::empty()
    } else {
        layer_sources(lines, dirs.drop_last()) + sources_at(lines, dirs.last())
    }
}

/// The erofs blobs that back a rootfs: none where it is no overlay.
pub open spec fn erofs_sources(mountinfo: Seq<char>, rootfs: Seq<char>) -> Seq<Seq<char>> {
    let lines = text::lines(mountinfo);
    match last_lowerdir(lines, rootfs) {
        Some(d) => layer_sources(lines, text::split(d, ':')),
        None => Seq::empty(),
    }
}

fn push_sources(lines: &Vec<String>, dir: &str, out: &mut Vec<String>)
    ensures
        text::strings(final(out)@) == text::strings(old(out)@) + sources_at(
            text::strings(lines@),
            dir@,
        ),
{
    let ghost l = text::strings(lines@);
    let ghost start = text::strings(out@);
    let mut i: usize = 0;
    assert(start + sources_at(l.take(0), dir@) =~= start);
    while i < lines.len()
        invariant
            i <= lines@.len(),
            l == text::strings(lines@),
            text::strings(out@) == start + sources_at(l.take(i as int), dir@),
        decreases lines@.len() - i,
    {
        assert(l.take(i + 1).drop_last() =~= l.take(i as int));
        assert(l.take(i + 1).last() == lines@[i as int]@);
        let w: Vec<String> = text::words_of(lines[i].as_str());
        assert(text::strings(w@).len() == w@.len());
        if is_mounted(&w, dir, "erofs") {
            let sep: usize = find_separator(&w);
            if w.len() - sep > 2 {
                let ghost was = out@;
                let s: String = w[sep + 2].clone();
                let ghost sv = s@;
                out.push(s);
                assert(text::strings(out@) =~= text::strings(was).push(sv));
                assert(text::strings(out@) =~= start + sources_at(l.take(i + 1), dir@));
            }
        }
        i += 1;
    }
    assert(l.take(lines@.len() as int) =~= l);
}

/// The erofs blobs that back a rootfs, topmost layer first. Which of them still exist is for the
/// caller to see, and for [`existing`] to sort out.
pub fn find_erofs_layers(rootfs_path: &str, mountinfo: &str) -> (res: Vec<String>)
    ensures
        text::strings(res@) == erofs_sources(mountinfo@, rootfs_path@),
{
    let lines: Vec<String> = text::lines_of(mountinfo);
    let mut out: Vec<String> = Vec::new();
    assert(text::strings(out@) =~= Seq::<Seq<char>>::empty());
    match find_last_lowerdir(&lines, rootfs_path) {
        Some(d) => {
            let dirs: Vec<String> = text::split_on(d.as_str(), ':');
            let ghost l = text::strings(lines@);
            let ghost ds = text::strings(dirs@);
            let mut i: usize = 0;
            while i < dirs.len()
                invariant
                    i <= dirs@.len(),
                    l == text::strings(lines@),
                    ds == text::strings(dirs@),
                    text::strings(out@) =~= layer_sources(l, ds.take(i as int)),
                decreases dirs@.len() - i,
            {
                assert(ds.take(i + 1).drop_last() =~= ds.take(i as int));
                assert(ds.take(i + 1).last() == dirs@[i as int]@);
                push_sources(&lines, dirs[i].as_str(), &mut out);
                i += 1;
            }
            assert(ds.take(dirs@.len() as int) =~= ds);
        },
        None => {},
    }
    out
}

/// Those of `paths` that exist.
pub open spec fn kept(paths: Seq<Seq<char>>, exists: Seq<bool>) -> Seq<Seq<char>>
    decreases paths.len(),
{
    if paths.len() == 0 {
        Seq::empty()
    } else if exists[paths.len() - 1] {
        kept(paths.drop_last(), exists).push(paths.last())
    } else {
        kept(paths.drop_last(), exists)
    }
}

/// Keeps those of `paths` that exist, in order.
pub fn existing(paths: &Vec<String>, exists: &Vec<bool>) -> (res: Vec<String>)
    requires
        exists@.len() == paths@.len(),
    ensures
        text::strings(res@) == kept(text::strings(paths@), exists@),
{
    let ghost p = text::strings(paths@);
    let mut out: Vec<String> = Vec::new();
    let mut i: usize = 0;
    while i < paths.len()
        invariant
            i <= paths@.len(),
            exists@.len() == paths@.len(),
            p == text::strings(paths@),
            text::strings(out@) =~= kept(p.take(i as int), exists@),
        decreases paths@.len() - i,
    {
        assert(p.take(i + 1).drop_last() =~= p.take(i as int));
        assert(p.take(i + 1).last() == paths@[i as int]@);
        if exists[i] {
            let ghost was = out@;
            let s: String = paths[i].clone();
            let ghost sv = s@;
            out.push(s);
            assert(text::strings(out@) =~= text::strings(was).push(sv));
        }
        i += 1;
    }
    assert(p.take(paths@.len() as int) =~= p);
    out
}

/// Whether the words of a line are those of a mount of a file system type at `path`, and `at` is
/// the place of its separator: the first word that is a dash.
pub open spec fn mount_line(w: Seq<Seq<char>>, path: Seq<char>, fs: Seq<char>, at: int) -> bool {
    &&& 4 < w.len()
    &&& w[4] == path
    &&& 0 <= at
    &&& at + 1 < w.len()
    &&& w[at] == "-"@
    &&& forall|k: int| 0 <= k < at ==> #[trigger] w[k] != "-"@
    &&& w[at + 1] == fs
}

/// Whether a line says of an overlay at `path` that `o` is one of its options: of the file system,
/// which stand in the third word behind the separator with commas between them, or of the mount.
pub open spec fn overlay_option(line: Seq<char>, path: Seq<char>, o: Seq<char>) -> bool {
    let w = text::words(line);
    exists|at: int| #[trigger]
        mount_line(w, path, "overlay"@, at) && ((at + 3 < w.len() && text::split(
            w[at + 3],
            ',',
        ).contains(o)) || (exists|k: int| 5 <= k < at && #[trigger] w[k] == o))
}

proof fn lemma_separator(w: Seq<Seq<char>>, from: int)
    requires
        0 <= from <= w.len(),
    ensures
        from <= separator(w, from) <= w.len(),
        separator(w, from) < w.len() ==> w[separator(w, from)] == "-"@,
        forall|k: int| from <= k < separator(w, from) ==> #[trigger] w[k] != "-"@,
    decreases w.len() - from,
{
    if from < w.len() && w[from] != "-"@ {
        lemma_separator(w, from + 1);
    }
}

proof fn lemma_mount_line(w: Seq<Seq<char>>, path: Seq<char>, fs: Seq<char>, at: int)
    ensures
        mount_line(w, path, fs, at) <==> mounted(w, path, fs) && at == separator(w, 0),
{
    lemma_separator(w, 0);
    if mount_line(w, path, fs, at) {
        let s = separator(w, 0);
        if at < s {
            assert(w[at] != "-"@);
        }
        if s < at {
            assert(w[s] != "-"@);
        }
    }
}

proof fn lemma_lowerdir_in(opts: Seq<Seq<char>>, from: int, to: int)
    requires
        0 <= from,
        to <= opts.len(),
    ensures
        match lowerdir_in(opts, from, to) {
            Some(d) => exists|k: int|
                from <= k < to && #[trigger] opts[k] == "lowerdir="@ + d && forall|j: int|
                    from <= j < k ==> !text::has_prefix(#[trigger] opts[j], "lowerdir="@),
            None => forall|k: int|
                from <= k < to ==> !text::has_prefix(#[trigger] opts[k], "lowerdir="@),
        },
    decreases to - from,
{
    if from < to {
        let p = "lowerdir="@;
        if text::has_prefix(opts[from], p) {
            let d = opts[from].skip(p.len() as int);
            assert(opts[from] =~= p + d) by {
                assert(opts[from].subrange(0, p.len() as int) == p);
                assert(opts[from] =~= opts[from].subrange(0, p.len() as int) + d);
            }
        } else {
            lemma_lowerdir_in(opts, from + 1, to);
        }
    }
}

proof fn lemma_prefix(p: Seq<char>, d: Seq<char>)
    ensures
        text::has_prefix(p + d, p),
        (p + d).skip(p.len() as int) == d,
{
    assert((p + d).subrange(0, p.len() as int) =~= p);
    assert((p + d).skip(p.len() as int) =~= d);
}

proof fn lemma_overlay_options(line: Seq<char>, path: Seq<char>)
    ensures
        ({
            let w = text::words(line);
            let r = either(super_lowerdir(w), mount_lowerdir(w));
            let q = either(mount_lowerdir(w), super_lowerdir(w));
            &&& mounted(w, path, "overlay"@) && r is Some ==> overlay_option(
                line,
                path,
                "lowerdir="@ + r->Some_0,
            )
            &&& mounted(w, path, "overlay"@) && q is Some ==> overlay_option(
                line,
                path,
                "lowerdir="@ + q->Some_0,
            )
            &&& !(mounted(w, path, "overlay"@) && r is Some) ==> forall|d: Seq<char>|
                !overlay_option(line, path, #[trigger] ("lowerdir="@ + d))
        }),
{
    let w = text::words(line);
    let at = separator(w, 0);
    let opts = super_options(w);
    lemma_separator(w, 0);
    lemma_mount_line(w, path, "overlay"@, at);
    lemma_lowerdir_in(opts, 0, opts.len() as int);
    lemma_lowerdir_in(w, 5, at);
    if mounted(w, path, "overlay"@) {
        assert(mount_line(w, path, "overlay"@, at));
        if at + 3 >= w.len() {
            lemma_no_option();
        }
        if let Some(d) = super_lowerdir(w) {
            let k = choose|k: int|
                0 <= k < opts.len() && #[trigger] opts[k] == "lowerdir="@ + d && forall|j: int|
                    0 <= j < k ==> !text::has_prefix(#[trigger] opts[j], "lowerdir="@);
            if at + 3 >= w.len() {
                lemma_prefix("lowerdir="@, d);
                assert(text::has_prefix(opts[k], "lowerdir="@));
            }
            assert(opts.contains("lowerdir="@ + d));
            assert(overlay_option(line, path, "lowerdir="@ + d));
        }
        if let Some(d) = mount_lowerdir(w) {
            let k = choose|k: int|
                5 <= k < at && #[trigger] w[k] == "lowerdir="@ + d && forall|j: int|
                    5 <= j < k ==> !text::has_prefix(#[trigger] w[j], "lowerdir="@);
            assert(w[k] == "lowerdir="@ + d);
            assert(overlay_option(line, path, "lowerdir="@ + d));
        }
    }
    if !(mounted(w, path, "overlay"@) && either(super_lowerdir(w), mount_lowerdir(w)) is Some) {
        assert forall|d: Seq<char>| !overlay_option(line, path, #[trigger] ("lowerdir="@ + d)) by {
            let o = "lowerdir="@ + d;
            lemma_prefix("lowerdir="@, d);
            if overlay_option(line, path, o) {
                let x = choose|x: int| #[trigger]
                    mount_line(w, path, "overlay"@, x) && ((x + 3 < w.len() && text::split(
                        w[x + 3],
                        ',',
                    ).contains(o)) || (exists|k: int| 5 <= k < x && #[trigger] w[k] == o));
                lemma_mount_line(w, path, "overlay"@, x);
                assert(x == at);
                if x + 3 < w.len() && opts.contains(o) {
                    let k = choose|k: int| 0 <= k < opts.len() && opts[k] == o;
                    assert(text::has_prefix(opts[k], "lowerdir="@));
                } else {
                    let k = choose|k: int| 5 <= k < x && #[trigger] w[k] == o;
                    assert(text::has_prefix(w[k], "lowerdir="@));
                }
            }
        }
    }
}

/// No options are one empty option.
proof fn lemma_no_option()
    ensures
        text::split(Seq::<char>::empty(), ',').len() == 1,
        !text::has_prefix(text::split(Seq::<char>::empty(), ',')[0], "lowerdir="@),
{
    reveal_strlit("lowerdir=");
    assert("lowerdir="@.len() == 9);
}

/// The text that is hashed into the key of an overlay at `path` is the whole list of its lower
/// directories: one of the options of the overlay is `lowerdir=` and that text, to its last
/// character. There is no key exactly where no overlay at `path` has such an option.
pub proof fn law_key_is_of_whole_lowerdir(lines: Seq<Seq<char>>, path: Seq<char>)
    ensures
        match first_lowerdir(lines, path) {
            Some(d) => exists|i: int|
                0 <= i < lines.len() && overlay_option(
                    #[trigger] lines[i],
                    path,
                    "lowerdir="@ + d,
                ) && forall|k: int, e: Seq<char>|
                    0 <= k < i ==> !#[trigger] overlay_option(lines[k], path, "lowerdir="@ + e),
            None => forall|i: int, e: Seq<char>|
                0 <= i < lines.len() ==> !#[trigger] overlay_option(
                    lines[i],
                    path,
                    "lowerdir="@ + e,
                ),
        },
    decreases lines.len(),
{
    if lines.len() > 0 {
        lemma_overlay_options(lines[0], path);
        let w = text::words(lines[0]);
        if !(mounted(w, path, "overlay"@) && either(super_lowerdir(w), mount_lowerdir(w)) is Some) {
            let rest = lines.skip(1);
            law_key_is_of_whole_lowerdir(rest, path);
            match first_lowerdir(rest, path) {
                Some(d) => {
                    let i = choose|i: int|
                        0 <= i < rest.len() && overlay_option(
                            #[trigger] rest[i],
                            path,
                            "lowerdir="@ + d,
                        ) && forall|k: int, e: Seq<char>|
                            0 <= k < i ==> !#[trigger] overlay_option(
                                rest[k],
                                path,
                                "lowerdir="@ + e,
                            );
                    assert(lines[i + 1] == rest[i]);
                    assert forall|k: int, e: Seq<char>|
                        0 <= k < i + 1 implies !#[trigger] overlay_option(
                        lines[k],
                        path,
                        "lowerdir="@ + e,
                    ) by {
                        if k > 0 {
                            assert(rest[k - 1] == lines[k]);
                            assert(!overlay_option(rest[k - 1], path, "lowerdir="@ + e));
                        }
                    }
                },
                None => {
                    assert forall|i: int, e: Seq<char>|
                        0 <= i < lines.len() implies !#[trigger] overlay_option(
                        lines[i],
                        path,
                        "lowerdir="@ + e,
                    ) by {
                        if i > 0 {
                            assert(rest[i - 1] == lines[i]);
                            assert(!overlay_option(rest[i - 1], path, "lowerdir="@ + e));
                        }
                    }
                },
            }
        } else {
            assert(overlay_option(
                lines[0],
                path,
                "lowerdir="@ + first_lowerdir(lines, path)->Some_0,
            ));
        }
    }
}

/// Overlays with different lists of lower directories have different texts hashed: where the one
/// line for an overlay at `path` names its lower directories once, these are the text, and so two
/// such lines that name different ones give different texts.
pub proof fn law_different_layers_differ(
    a: Seq<char>,
    b: Seq<char>,
    path: Seq<char>,
    d: Seq<char>,
    e: Seq<char>,
)
    requires
        overlay_option(a, path, "lowerdir="@ + d),
        forall|x: Seq<char>| #[trigger] overlay_option(a, path, "lowerdir="@ + x) ==> x == d,
        overlay_option(b, path, "lowerdir="@ + e),
        forall|x: Seq<char>| #[trigger] overlay_option(b, path, "lowerdir="@ + x) ==> x == e,
    ensures
        first_lowerdir(seq![a], path) == Some(d),
        first_lowerdir(seq![b], path) == Some(e),
        d != e ==> first_lowerdir(seq![a], path) != first_lowerdir(seq![b], path),
{
    lemma_only_line(a, path, d);
    lemma_only_line(b, path, e);
}

proof fn lemma_only_line(a: Seq<char>, path: Seq<char>, d: Seq<char>)
    requires
        overlay_option(a, path, "lowerdir="@ + d),
        forall|x: Seq<char>| #[trigger] overlay_option(a, path, "lowerdir="@ + x) ==> x == d,
    ensures
        first_lowerdir(seq![a], path) == Some(d),
{
    let lines = seq![a];
    law_key_is_of_whole_lowerdir(lines, path);
    match first_lowerdir(lines, path) {
        Some(x) => {
            let i = choose|i: int|
                0 <= i < lines.len() && overlay_option(
                    #[trigger] lines[i],
                    path,
                    "lowerdir="@ + x,
                ) && forall|k: int, e: Seq<char>|
                    0 <= k < i ==> !#[trigger] overlay_option(lines[k], path, "lowerdir="@ + e);
            assert(lines[i] == a);
            assert(overlay_option(a, path, "lowerdir="@ + x));
        },
        None => {
            assert(!overlay_option(lines[0], path, "lowerdir="@ + d));
        },
    }
}

/// The lower directories whose layers are looked for are those of the last overlay line at `path`
/// that names some, whole as they stand in the option.
pub proof fn law_layers_are_of_whole_lowerdir(lines: Seq<Seq<char>>, path: Seq<char>)
    ensures
        match last_lowerdir(lines, path) {
            Some(d) => exists|i: int|
                0 <= i < lines.len() && overlay_option(
                    #[trigger] lines[i],
                    path,
                    "lowerdir="@ + d,
                ) && forall|k: int, e: Seq<char>|
                    i < k < lines.len() ==> !#[trigger] overlay_option(
                        lines[k],
                        path,
                        "lowerdir="@ + e,
                    ),
            None => forall|i: int, e: Seq<char>|
                0 <= i < lines.len() ==> !#[trigger] overlay_option(
                    lines[i],
                    path,
                    "lowerdir="@ + e,
                ),
        },
    decreases lines.len(),
{
    if lines.len() > 0 {
        let n = lines.len() - 1;
        lemma_overlay_options(lines[n], path);
        let w = text::words(lines[n]);
        if !(mounted(w, path, "overlay"@) && either(super_lowerdir(w), mount_lowerdir(w)) is Some) {
            let most = lines.drop_last();
            law_layers_are_of_whole_lowerdir(most, path);
            match last_lowerdir(most, path) {
                Some(d) => {
                    let i = choose|i: int|
                        0 <= i < most.len() && overlay_option(
                            #[trigger] most[i],
                            path,
                            "lowerdir="@ + d,
                        ) && forall|k: int, e: Seq<char>|
                            i < k < most.len() ==> !#[trigger] overlay_option(
                                most[k],
                                path,
                                "lowerdir="@ + e,
                            );
                    assert(lines[i] == most[i]);
                    assert forall|k: int, e: Seq<char>|
                        i < k < lines.len() implies !#[trigger] overlay_option(
                        lines[k],
                        path,
                        "lowerdir="@ + e,
                    ) by {
                        if k < n {
                            assert(most[k] == lines[k]);
                            assert(!overlay_option(most[k], path, "lowerdir="@ + e));
                        }
                    }
                },
                None => {
                    assert forall|i: int, e: Seq<char>|
                        0 <= i < lines.len() implies !#[trigger] overlay_option(
                        lines[i],
                        path,
                        "lowerdir="@ + e,
                    ) by {
                        if i < n {
                            assert(most[i] == lines[i]);
                            assert(!overlay_option(most[i], path, "lowerdir="@ + e));
                        }
                    }
                },
            }
        } else {
            assert(overlay_option(
                lines[n],
                path,
                "lowerdir="@ + last_lowerdir(lines, path)->Some_0,
            ));
        }
    }
}

/// Whether a line says that `source` is mounted as an erofs file system at `dir`.
pub open spec fn erofs_line(line: Seq<char>, dir: Seq<char>, source: Seq<char>) -> bool {
    exists|at: int| #[trigger]
        mount_line(text::words(line), dir, "erofs"@, at) && at + 2 < text::words(line).len()
            && text::words(line)[at + 2] == source
}

proof fn lemma_erofs_source(line: Seq<char>, dir: Seq<char>, s: Seq<char>)
    ensures
        erofs_source(line, dir) == Some(s) <==> erofs_line(line, dir, s),
{
    let w = text::words(line);
    lemma_mount_line(w, dir, "erofs"@, separator(w, 0));
    if erofs_line(line, dir, s) {
        let at = choose|at: int| #[trigger]
            mount_line(w, dir, "erofs"@, at) && at + 2 < w.len() && w[at + 2] == s;
        lemma_mount_line(w, dir, "erofs"@, at);
    }
}

proof fn lemma_sources_at(lines: Seq<Seq<char>>, dir: Seq<char>, s: Seq<char>)
    ensures
        sources_at(lines, dir).contains(s) <==> exists|i: int|
            0 <= i < lines.len() && erofs_line(#[trigger] lines[i], dir, s),
    decreases lines.len(),
{
    if lines.len() > 0 {
        let most = lines.drop_last();
        let n = lines.len() - 1;
        lemma_sources_at(most, dir, s);
        lemma_erofs_source(lines.last(), dir, s);
        let before = sources_at(most, dir);
        let all = sources_at(lines, dir);
        if before.contains(s) {
            let k = choose|k: int| 0 <= k < before.len() && before[k] == s;
            assert(all[k] == s);
            let i = choose|i: int| 0 <= i < most.len() && erofs_line(#[trigger] most[i], dir, s);
            assert(lines[i] == most[i]);
        }
        if erofs_line(lines.last(), dir, s) {
            assert(all[before.len() as int] == s);
            assert(erofs_line(lines[n], dir, s));
        }
        if all.contains(s) {
            let k = choose|k: int| 0 <= k < all.len() && all[k] == s;
            if k < before.len() {
                assert(before[k] == s);
            } else {
                assert(erofs_line(lines[n], dir, s));
            }
        }
        if exists|i: int| 0 <= i < lines.len() && erofs_line(#[trigger] lines[i], dir, s) {
            let i = choose|i: int| 0 <= i < lines.len() && erofs_line(#[trigger] lines[i], dir, s);
            if i < n {
                assert(most[i] == lines[i]);
            }
        }
    }
}

/// The blobs that back a rootfs are the sources of the erofs mounts at its lower directories, all of
/// them and nothing else.
pub proof fn law_layer_sources(lines: Seq<Seq<char>>, dirs: Seq<Seq<char>>, s: Seq<char>)
    ensures
        layer_sources(lines, dirs).contains(s) <==> exists|d: int, i: int|
            0 <= d < dirs.len() && 0 <= i < lines.len() && #[trigger] erofs_line(
                lines[i],
                dirs[d],
                s,
            ),
    decreases dirs.len(),
{
    if dirs.len() > 0 {
        let most = dirs.drop_last();
        let n = dirs.len() - 1;
        law_layer_sources(lines, most, s);
        lemma_sources_at(lines, dirs.last(), s);
        let before = layer_sources(lines, most);
        let here = sources_at(lines, dirs.last());
        let all = layer_sources(lines, dirs);
        if before.contains(s) {
            let k = choose|k: int| 0 <= k < before.len() && before[k] == s;
            assert(all[k] == s);
            let (d, i) = choose|d: int, i: int|
                0 <= d < most.len() && 0 <= i < lines.len() && #[trigger] erofs_line(
                    lines[i],
                    most[d],
                    s,
                );
            assert(erofs_line(lines[i], dirs[d], s));
        }
        if here.contains(s) {
            let k = choose|k: int| 0 <= k < here.len() && here[k] == s;
            assert(all[before.len() + k] == s);
            let i = choose|i: int|
                0 <= i < lines.len() && erofs_line(#[trigger] lines[i], dirs.last(), s);
            assert(erofs_line(lines[i], dirs[n], s));
        }
        if all.contains(s) {
            let k = choose|k: int| 0 <= k < all.len() && all[k] == s;
            if k < before.len() {
                assert(before[k] == s);
            } else {
                assert(here[k - before.len()] == s);
            }
        }
        if exists|d: int, i: int|
            0 <= d < dirs.len() && 0 <= i < lines.len() && #[trigger] erofs_line(
                lines[i],
                dirs[d],
                s,
            ) {
            let (d, i) = choose|d: int, i: int|
                0 <= d < dirs.len() && 0 <= i < lines.len() && #[trigger] erofs_line(
                    lines[i],
                    dirs[d],
                    s,
                );
            if d < n {
                assert(erofs_line(lines[i], most[d], s));
            } else {
                assert(erofs_line(lines[i], dirs.last(), s));
            }
        }
    } else {
        assert(layer_sources(lines, dirs) =~= Seq::<Seq<char>>::empty());
    }
}

/// The layers come directory by directory: those of a list of directories are those of its first
/// part, and then those of the rest.
pub proof fn law_layers_in_order(lines: Seq<Seq<char>>, a: Seq<Seq<char>>, b: Seq<Seq<char>>)
    ensures
        layer_sources(lines, a + b) == layer_sources(lines, a) + layer_sources(lines, b),
    decreases b.len(),
{
    if b.len() == 0 {
        assert(a + b =~= a);
        assert(layer_sources(lines, a) + layer_sources(lines, b) =~= layer_sources(lines, a));
    } else {
        law_layers_in_order(lines, a, b.drop_last());
        assert((a + b).drop_last() =~= a + b.drop_last());
        assert((a + b).last() == b.last());
        assert(layer_sources(lines, a + b) =~= layer_sources(lines, a) + layer_sources(lines, b));
    }
}

/// A path is kept exactly where it exists, and the paths that are kept stay in order. The result
/// says where each of them stood.
pub proof fn law_existing_are_kept(paths: Seq<Seq<char>>, exists_: Seq<bool>) -> (from: Seq<int>)
    requires
        exists_.len() == paths.len(),
    ensures
        from.len() == kept(paths, exists_).len(),
        forall|i: int|
            0 <= i < from.len() ==> 0 <= #[trigger] from[i] < paths.len() && exists_[from[i]]
                && kept(paths, exists_)[i] == paths[from[i]],
        forall|i: int, j: int| 0 <= i < j < from.len() ==> #[trigger] from[i] < #[trigger] from[j],
        forall|k: int|
            0 <= k < paths.len() && #[trigger] exists_[k] ==> exists|i: int|
                0 <= i < from.len() && #[trigger] from[i] == k,
    decreases paths.len(),
{
    if paths.len() == 0 {
        Seq::empty()
    } else {
        let n = paths.len() - 1;
        let most = paths.drop_last();
        lemma_kept_ignores_rest(most, exists_, exists_.drop_last());
        let before = law_existing_are_kept(most, exists_.drop_last());
        let res = if exists_[n] {
            before.push(n)
        } else {
            before
        };
        assert forall|k: int| 0 <= k < paths.len() && #[trigger] exists_[k] implies exists|i: int|
            0 <= i < res.len() && #[trigger] res[i] == k by {
            if k < n {
                assert(exists_.drop_last()[k]);
                let i = choose|i: int| 0 <= i < before.len() && #[trigger] before[i] == k;
                assert(res[i] == k);
            } else {
                assert(res[before.len() as int] == n);
            }
        }
        assert forall|i: int| 0 <= i < res.len() implies 0 <= #[trigger] res[i] < paths.len()
            && exists_[res[i]] && kept(paths, exists_)[i] == paths[res[i]] by {
            if i < before.len() {
                assert(res[i] == before[i]);
                assert(exists_.drop_last()[before[i]]);
            }
        }
        res
    }
}

proof fn lemma_kept_ignores_rest(paths: Seq<Seq<char>>, a: Seq<bool>, b: Seq<bool>)
    requires
        paths.len() <= a.len(),
        paths.len() <= b.len(),
        forall|i: int| 0 <= i < paths.len() ==> #[trigger] a[i] == b[i],
    ensures
        kept(paths, a) == kept(paths, b),
    decreases paths.len(),
{
    if paths.len() > 0 {
        lemma_kept_ignores_rest(paths.drop_last(), a, b);
        assert(a[paths.len() - 1] == b[paths.len() - 1]);
    }
}

/// The key of the erofs image for a rootfs.
pub open spec fn cache_key(mountinfo: Seq<char>, rootfs: Seq<char>) -> Option<Seq<char>> {
    match first_lowerdir(text::lines(mountinfo), rootfs) {
        Some(d) => Some(hash::stable_hash(d)),
        None => None,
    }
}

/// The key for a rootfs is the hash of a whole list of lower directories: an overlay at the rootfs
/// has the option `lowerdir=` and that list. Without such an option there is no key.
pub proof fn law_cache_key(mountinfo: Seq<char>, rootfs: Seq<char>)
    ensures
        match cache_key(mountinfo, rootfs) {
            Some(key) => exists|i: int, d: Seq<char>|
                0 <= i < text::lines(mountinfo).len() && #[trigger] overlay_option(
                    text::lines(mountinfo)[i],
                    rootfs,
                    "lowerdir="@ + d,
                ) && key == hash::stable_hash(d),
            None => forall|i: int, d: Seq<char>|
                0 <= i < text::lines(mountinfo).len() ==> !#[trigger] overlay_option(
                    text::lines(mountinfo)[i],
                    rootfs,
                    "lowerdir="@ + d,
                ),
        },
{
    let lines = text::lines(mountinfo);
    law_key_is_of_whole_lowerdir(lines, rootfs);
    if let Some(d) = first_lowerdir(lines, rootfs) {
        let i = choose|i: int|
            0 <= i < lines.len() && overlay_option(
                #[trigger] lines[i],
                rootfs,
                "lowerdir="@ + d,
            ) && forall|k: int, e: Seq<char>|
                0 <= k < i ==> !#[trigger] overlay_option(lines[k], rootfs, "lowerdir="@ + e);
        assert(overlay_option(text::lines(mountinfo)[i], rootfs, "lowerdir="@ + d));
    }
}

} // verus!
