//! Adapting an OCI specification to the VM.
//!
//! The host's specification refers to resources of the host: namespaces, cgroups, mounts. The VM
//! has its own network, hostname and IPC; mount and PID namespaces stay, so that containers of one
//! pod do not see each other's files and processes.

use crate::container;
use crate::container::{ContainerManager, ManagerView, VolumeInfo};
use crate::json;
use crate::json::{Json, JsonView};
use crate::oci;
use crate::paths;
use crate::text;
use vstd::prelude::*;

verus! {

/// A mount of a container.
pub open spec fn mount_document(
    destination: Seq<char>,
    ty: Seq<char>,
    source: Seq<char>,
    options: Option<Seq<Seq<char>>>,
) -> JsonView {
    let m = Map::<Seq<char>, JsonView>::empty();
    let m = m.insert("destination"@, JsonView::Text(destination));
    let m = m.insert("type"@, JsonView::Text(ty));
    let m = m.insert("source"@, JsonView::Text(source));
    JsonView::Object(
        json::with_opt(
            m,
            "options"@,
            match options {
                Some(o) => Some(json::texts(o)),
                None => None,
            },
        ),
    )
}

fn mount_json(destination: &str, ty: &str, source: &str, options: Option<&[&str]>) -> (res: Json)
    ensures
        res@ == mount_document(
            destination@,
            ty@,
            source@,
            match options {
                Some(o) => Some(text::strs(o@)),
                None => None,
            },
        ),
{
    let mut v: Vec<(String, Json)> = Vec::new();
    json::put(&mut v, "destination", json::json_text(destination));
    json::put(&mut v, "type", json::json_text(ty));
    json::put(&mut v, "source", json::json_text(source));
    if let Some(o) = options {
        json::put(&mut v, "options", json::json_texts(o));
    }
    Json::Object(v)
}

/// The system mounts of every container.
pub open spec fn system_mounts() -> Seq<JsonView> {
    seq![
        mount_document("/proc"@, "proc"@, "proc"@, None),
        mount_document(
            "/dev"@,
            "tmpfs"@,
            "tmpfs"@,
            Some(seq!["nosuid"@, "strictatime"@, "mode=755"@, "size=65536k"@]),
        ),
        mount_document(
            "/dev/pts"@,
            "devpts"@,
            "devpts"@,
            Some(seq!["nosuid"@, "noexec"@, "newinstance"@, "ptmxmode=0666"@, "mode=0620"@]),
        ),
        mount_document(
            "/sys"@,
            "sysfs"@,
            "sysfs"@,
            Some(seq!["nosuid"@, "noexec"@, "nodev"@, "ro"@]),
        ),
    ]
}

fn system_mounts_json() -> (res: Vec<Json>)
    ensures
        json::elements(res@) == system_mounts(),
{
    let dev: [&str; 4] = ["nosuid", "strictatime", "mode=755", "size=65536k"];
    let pts: [&str; 5] = ["nosuid", "noexec", "newinstance", "ptmxmode=0666", "mode=0620"];
    let sys: [&str; 4] = ["nosuid", "noexec", "nodev", "ro"];
    assert(text::strs(dev@) =~= seq!["nosuid"@, "strictatime"@, "mode=755"@, "size=65536k"@]);
    assert(text::strs(pts@) =~= seq![
        "nosuid"@,
        "noexec"@,
        "newinstance"@,
        "ptmxmode=0666"@,
        "mode=0620"@,
    ]);
    assert(text::strs(sys@) =~= seq!["nosuid"@, "noexec"@, "nodev"@, "ro"@]);
    let mut v: Vec<Json> = Vec::new();
    json::add_element(&mut v, mount_json("/proc", "proc", "proc", None));
    json::add_element(&mut v, mount_json("/dev", "tmpfs", "tmpfs", Some(&dev)));
    json::add_element(&mut v, mount_json("/dev/pts", "devpts", "devpts", Some(&pts)));
    json::add_element(&mut v, mount_json("/sys", "sysfs", "sysfs", Some(&sys)));
    assert(json::elements(v@) =~= system_mounts());
    v
}

/// What a file system volume is mounted from: its directory, or, where its only file bears the
/// name of the destination, that file, since a directory cannot be mounted over a file.
pub open spec fn bind_source(v: VolumeInfo) -> Seq<char> {
    if v.inline_files@.len() == 1 && paths::file_name(v.destination@).len() > 0
        && paths::file_name(v.destination@) == paths::file_name(v.inline_files@[0].path@) {
        paths::joined(v.source@, v.inline_files@[0].path@)
    } else {
        v.source@
    }
}

fn bind_source_of(v: &VolumeInfo) -> (res: String)
    ensures
        res@ == bind_source(*v),
{
    if v.inline_files.len() == 1 {
        let dest: String = paths::file_name_of(v.destination.as_str());
        let file: String = paths::file_name_of(v.inline_files[0].path.as_str());
        if !dest.as_str().is_empty() && text::same(dest.as_str(), file.as_str()) {
            return paths::join(v.source.as_str(), v.inline_files[0].path.as_str());
        }
    }
    v.source.clone()
}

/// The mount for a file system volume.
pub open spec fn bind_mount(v: VolumeInfo) -> JsonView {
    mount_document(
        v.destination@,
        "bind"@,
        bind_source(v),
        Some(
            if v.readonly {
                seq!["rbind"@, "ro"@]
            } else {
                seq!["rbind"@]
            },
        ),
    )
}

/// The mount for a block volume on a disk.
pub open spec fn block_mount(v: VolumeInfo, disk: Seq<char>) -> JsonView {
    mount_document(
        v.destination@,
        v.fs_type@,
        container::device_path(disk),
        Some(
            if v.readonly {
                seq!["ro"@]
            } else {
                Seq::empty()
            },
        ),
    )
}

/// The mounts for some volumes, and the manager once the disks among `current` that they need are
/// in use: each block volume takes the next disk that is not known, and is left out where there
/// is none.
pub open spec fn volume_mounts(
    vols: Seq<VolumeInfo>,
    m: ManagerView,
    current: Seq<Seq<char>>,
) -> (Seq<JsonView>, ManagerView)
    decreases vols.len(),
{
    if vols.len() == 0 {
        (Seq::empty(), m)
    } else {
        let (mounts, m) = volume_mounts(vols.drop_last(), m, current);
        let v = vols.last();
        if v.is_block {
            match container::first_new(current, m.known) {
                Some(disk) => (mounts.push(block_mount(v, disk)), m.with_disk(disk)),
                None => (mounts, m),
            }
        } else {
            (mounts.push(bind_mount(v)), m)
        }
    }
}

/// The namespaces that a container keeps.
pub open spec fn kept_namespaces() -> JsonView {
    JsonView::Array(
        seq![
            JsonView::Object(Map::empty().insert("type"@, JsonView::Text("mount"@))),
            JsonView::Object(Map::empty().insert("type"@, JsonView::Text("pid"@))),
        ],
    )
}

/// The Linux section without what refers to the host.
pub open spec fn adapted_linux(l: Map<Seq<char>, JsonView>) -> Map<Seq<char>, JsonView> {
    l.insert("namespaces"@, kept_namespaces()).remove("cgroupsPath"@).remove("maskedPaths"@).remove(
        "readonlyPaths"@,
    ).remove("resources"@).remove("seccomp"@)
}

/// The process section without what refers to the host.
pub open spec fn adapted_process(p: Map<Seq<char>, JsonView>) -> Map<Seq<char>, JsonView> {
    p.remove("apparmorProfile"@).remove("selinuxLabel"@).remove("oomScoreAdj"@)
}

/// A specification's top level: Linux and process sections adapted where they are there, no
/// hostname, and other mounts.
pub open spec fn adapted_top(
    top: Map<Seq<char>, JsonView>,
    mounts: Seq<JsonView>,
) -> Map<Seq<char>, JsonView> {
    let top = match top.contains_key("linux"@) {
        true => match top["linux"@] {
            JsonView::Object(l) => top.insert("linux"@, JsonView::Object(adapted_linux(l))),
            _ => top,
        },
        false => top,
    };
    let top = top.remove("hostname"@).insert("mounts"@, JsonView::Array(mounts));
    match top.contains_key("process"@) {
        true => match top["process"@] {
            JsonView::Object(p) => top.insert("process"@, JsonView::Object(adapted_process(p))),
            _ => top,
        },
        false => top,
    }
}

/// A specification adapted to the VM, with other mounts.
pub open spec fn adapted(spec: JsonView, mounts: Seq<JsonView>) -> JsonView {
    match spec {
        JsonView::Object(top) => JsonView::Object(adapted_top(top, mounts)),
        _ => spec,
    }
}

fn drop_key(v: &mut Vec<(String, Json)>, key: &str)
    ensures
        json::entries(final(v)@) == json::entries(old(v)@).remove(key@),
{
    let _ = json::take(v, key);
}

fn namespace_json(ty: &str) -> (res: Json)
    ensures
        res@ == JsonView::Object(Map::empty().insert("type"@, JsonView::Text(ty@))),
{
    let mut v: Vec<(String, Json)> = Vec::new();
    json::put(&mut v, "type", json::json_text(ty));
    Json::Object(v)
}

fn adapt_linux(l: Vec<(String, Json)>) -> (res: Vec<(String, Json)>)
    ensures
        json::entries(res@) == adapted_linux(json::entries(l@)),
{
    let mut l: Vec<(String, Json)> = l;
    let mut ns: Vec<Json> = Vec::new();
    json::add_element(&mut ns, namespace_json("mount"));
    json::add_element(&mut ns, namespace_json("pid"));
    let ghost want = seq![
        JsonView::Object(Map::empty().insert("type"@, JsonView::Text("mount"@))),
        JsonView::Object(Map::empty().insert("type"@, JsonView::Text("pid"@))),
    ];
    assert(json::elements(ns@) =~= want);
    json::put(&mut l, "namespaces", Json::Array(ns));
    drop_key(&mut l, "cgroupsPath");
    drop_key(&mut l, "maskedPaths");
    drop_key(&mut l, "readonlyPaths");
    drop_key(&mut l, "resources");
    drop_key(&mut l, "seccomp");
    l
}

fn adapt_process(p: Vec<(String, Json)>) -> (res: Vec<(String, Json)>)
    ensures
        json::entries(res@) == adapted_process(json::entries(p@)),
{
    let mut p: Vec<(String, Json)> = p;
    drop_key(&mut p, "apparmorProfile");
    drop_key(&mut p, "selinuxLabel");
    drop_key(&mut p, "oomScoreAdj");
    p
}

/// Adapts a parsed specification, with these mounts.
pub fn adapt_spec(spec: Json, mounts: Vec<Json>) -> (res: Json)
    ensures
        res@ == adapted(spec@, json::elements(mounts@)),
{
    match spec {
        Json::Object(top) => {
            let mut top: Vec<(String, Json)> = top;
            let ghost t0 = json::entries(top@);
            match json::take(&mut top, "linux") {
                Some(Json::Object(l)) => {
                    let l2: Vec<(String, Json)> = adapt_linux(l);
                    json::put(&mut top, "linux", Json::Object(l2));
                    assert(json::entries(top@) =~= t0.insert(
                        "linux"@,
                        JsonView::Object(adapted_linux(json::entries(l@))),
                    ));
                },
                Some(other) => {
                    json::put(&mut top, "linux", other);
                    assert(json::entries(top@) =~= t0);
                },
                None => {
                    assert(json::entries(top@) =~= t0);
                },
            }
            drop_key(&mut top, "hostname");
            json::put(&mut top, "mounts", Json::Array(mounts));
            let ghost t1 = json::entries(top@);
            match json::take(&mut top, "process") {
                Some(Json::Object(p)) => {
                    let p2: Vec<(String, Json)> = adapt_process(p);
                    json::put(&mut top, "process", Json::Object(p2));
                    assert(json::entries(top@) =~= t1.insert(
                        "process"@,
                        JsonView::Object(adapted_process(json::entries(p@))),
                    ));
                },
                Some(other) => {
                    json::put(&mut top, "process", other);
                    assert(json::entries(top@) =~= t1);
                },
                None => {
                    assert(json::entries(top@) =~= t1);
                },
            }
            Json::Object(top)
        },
        other => other,
    }
}

/// Why a specification could not be adapted.
#[derive(Debug, Clone, Copy, PartialEq, Eq, Structural)]
pub struct NotJson;

impl ContainerManager {
    /// The mounts of a container with these volumes. `current` are the disks that are there now.
    pub fn mounts_for(&mut self, volumes: &Vec<VolumeInfo>, current: &Vec<String>) -> (res: Vec<Json>)
        ensures
            ({
                let r = volume_mounts(volumes@, old(self)@, text::strings(current@));
                &&& json::elements(res@) == system_mounts() + r.0
                &&& final(self)@ == r.1
            }),
    {
        let mut mounts: Vec<Json> = system_mounts_json();
        let ghost start = self@;
        let ghost c = text::strings(current@);
        let mut i: usize = 0;
        assert(volumes@.take(0) =~= Seq::<VolumeInfo>::empty());
        assert(json::elements(mounts@) =~= system_mounts() + volume_mounts(
            volumes@.take(0),
            start,
            c,
        ).0);
        while i < volumes.len()
            invariant
                i <= volumes@.len(),
                c == text::strings(current@),
                json::elements(mounts@) == system_mounts() + volume_mounts(
                    volumes@.take(i as int),
                    start,
                    c,
                ).0,
                self@ == volume_mounts(volumes@.take(i as int), start, c).1,
            decreases volumes@.len() - i,
        {
            assert(volumes@.take(i + 1).drop_last() =~= volumes@.take(i as int));
            assert(volumes@.take(i + 1).last() == volumes@[i as int]);
            let ghost before = volume_mounts(volumes@.take(i as int), start, c).0;
            let v: &VolumeInfo = &volumes[i];
            if v.is_block {
                if let Some(dev) = self.discover_block_device(current) {
                    if v.readonly {
                        let o: [&str; 1] = ["ro"];
                        assert(text::strs(o@) =~= seq!["ro"@]);
                        let m: Json = mount_json(
                            v.destination.as_str(),
                            v.fs_type.as_str(),
                            dev.as_str(),
                            Some(&o),
                        );
                        let ghost mv = m@;
                        json::add_element(&mut mounts, m);
                        assert((system_mounts() + before).push(mv) =~= system_mounts()
                            + before.push(mv));
                    } else {
                        let o: [&str; 0] = [];
                        assert(text::strs(o@) =~= Seq::<Seq<char>>::empty());
                        let m: Json = mount_json(
                            v.destination.as_str(),
                            v.fs_type.as_str(),
                            dev.as_str(),
                            Some(&o),
                        );
                        let ghost mv = m@;
                        json::add_element(&mut mounts, m);
                        assert((system_mounts() + before).push(mv) =~= system_mounts()
                            + before.push(mv));
                    }
                }
            } else {
                let source: String = bind_source_of(v);
                if v.readonly {
                    let o: [&str; 2] = ["rbind", "ro"];
                    assert(text::strs(o@) =~= seq!["rbind"@, "ro"@]);
                    let m: Json = mount_json(v.destination.as_str(), "bind", source.as_str(), Some(&o));
                    let ghost mv = m@;
                    json::add_element(&mut mounts, m);
                    assert((system_mounts() + before).push(mv) =~= system_mounts() + before.push(mv));
                } else {
                    let o: [&str; 1] = ["rbind"];
                    assert(text::strs(o@) =~= seq!["rbind"@]);
                    let m: Json = mount_json(v.destination.as_str(), "bind", source.as_str(), Some(&o));
                    let ghost mv = m@;
                    json::add_element(&mut mounts, m);
                    assert((system_mounts() + before).push(mv) =~= system_mounts() + before.push(mv));
                }
            }
            i += 1;
        }
        assert(volumes@.take(volumes@.len() as int) =~= volumes@);
        mounts
    }

    /// Adapts the text of a specification to the VM. A text that is no JSON document is an error,
    /// and takes no disk into use.
    pub fn adapt_oci_spec_for_vm(
        &mut self,
        config: &str,
        volumes: &Vec<VolumeInfo>,
        current: &Vec<String>,
    ) -> (res: Result<String, NotJson>)
        ensures
            ({
                let r = volume_mounts(volumes@, old(self)@, text::strings(current@));
                match res {
                    Ok(t) => json::parsed(config@) is Some && t@ == json::pretty(
                        adapted(json::parsed(config@)->Some_0, system_mounts() + r.0),
                    ) && final(self)@ == r.1,
                    Err(_) => json::parsed(config@) is None && final(self)@ == old(self)@,
                }
            }),
    {
        match json::parse(config) {
            Some(spec) => {
                let mounts: Vec<Json> = self.mounts_for(volumes, current);
                Ok(json::to_text_pretty(adapt_spec(spec, mounts)))
            },
            None => Err(NotJson),
        }
    }
}

/// What an adapted specification says of the host: no cgroup, resource limit or security profile
/// of the host is left, and of the namespaces only mount and PID.
pub proof fn law_no_host_resources(
    spec: JsonView,
    mounts: Seq<JsonView>,
    l: Map<Seq<char>, JsonView>,
)
    requires
        spec.field("linux"@) == Some(JsonView::Object(l)),
    ensures
        ({
            let r = adapted(spec, mounts);
            &&& r.at(seq!["linux"@, "namespaces"@]) == Some(kept_namespaces())
            &&& r.at(seq!["linux"@, "cgroupsPath"@]) is None
            &&& r.at(seq!["linux"@, "maskedPaths"@]) is None
            &&& r.at(seq!["linux"@, "readonlyPaths"@]) is None
            &&& r.at(seq!["linux"@, "resources"@]) is None
            &&& r.at(seq!["linux"@, "seccomp"@]) is None
            &&& r.field("hostname"@) is None
            &&& r.field("mounts"@) == Some(JsonView::Array(mounts))
        }),
{
    lemma_keys_differ();
    let r = adapted(spec, mounts);
    let a = adapted_linux(l);
    assert(r.field("linux"@) == Some(JsonView::Object(a)));
    lemma_at_two(r, "linux"@, "namespaces"@);
    lemma_at_two(r, "linux"@, "cgroupsPath"@);
    lemma_at_two(r, "linux"@, "maskedPaths"@);
    lemma_at_two(r, "linux"@, "readonlyPaths"@);
    lemma_at_two(r, "linux"@, "resources"@);
    lemma_at_two(r, "linux"@, "seccomp"@);
}

proof fn lemma_at_two(v: JsonView, a: Seq<char>, b: Seq<char>)
    ensures
        v.at(seq![a, b]) == match v.field(a) {
            Some(w) => w.field(b),
            None => None,
        },
{
    reveal_with_fuel(JsonView::at, 3);
    let p = seq![a, b];
    assert(p.skip(1) =~= seq![b]);
    assert(seq![b].skip(1) =~= Seq::<Seq<char>>::empty());
}

proof fn lemma_keys_differ()
    ensures
        "namespaces"@ != "cgroupsPath"@,
        "namespaces"@ != "maskedPaths"@,
        "namespaces"@ != "readonlyPaths"@,
        "namespaces"@ != "resources"@,
        "namespaces"@ != "seccomp"@,
        "linux"@ != "hostname"@,
        "linux"@ != "mounts"@,
        "linux"@ != "process"@,
        "mounts"@ != "process"@,
        "mounts"@ != "hostname"@,
        "hostname"@ != "process"@,
{
    reveal_strlit("namespaces");
    reveal_strlit("cgroupsPath");
    reveal_strlit("maskedPaths");
    reveal_strlit("readonlyPaths");
    reveal_strlit("resources");
    reveal_strlit("seccomp");
    reveal_strlit("linux");
    reveal_strlit("hostname");
    reveal_strlit("mounts");
    reveal_strlit("process");
    assert("namespaces"@[0] != "cgroupsPath"@[0]);
    assert("namespaces"@[0] != "maskedPaths"@[0]);
    assert("namespaces"@[0] != "readonlyPaths"@[0]);
    assert("namespaces"@[0] != "resources"@[0]);
    assert("namespaces"@[0] != "seccomp"@[0]);
    assert("linux"@[0] != "hostname"@[0]);
    assert("linux"@[0] != "mounts"@[0]);
    assert("linux"@[0] != "process"@[0]);
    assert("mounts"@[0] != "process"@[0]);
    assert("mounts"@[0] != "hostname"@[0]);
    assert("hostname"@[0] != "process"@[0]);
}

/// Each file system volume is mounted, and block volumes as far as there are disks: the mounts are
/// the system mounts and at most one for each volume.
pub proof fn law_one_mount_per_volume(
    vols: Seq<VolumeInfo>,
    m: ManagerView,
    current: Seq<Seq<char>>,
)
    ensures
        volume_mounts(vols, m, current).0.len() <= vols.len(),
        (forall|i: int| 0 <= i < vols.len() ==> !(#[trigger] vols[i]).is_block) ==> volume_mounts(
            vols,
            m,
            current,
        ).0.len() == vols.len() && volume_mounts(vols, m, current).1 == m,
    decreases vols.len(),
{
    if vols.len() > 0 {
        law_one_mount_per_volume(vols.drop_last(), m, current);
        if forall|i: int| 0 <= i < vols.len() ==> !(#[trigger] vols[i]).is_block {
            assert forall|i: int| 0 <= i < vols.drop_last().len() implies !(
            #[trigger] vols.drop_last()[i]).is_block by {
                assert(!vols[i].is_block);
            }
            assert(!vols[vols.len() - 1].is_block);
        }
    }
}

/// What the mount of a volume says: it stands at the volume's destination, and has `ro` among its
/// options exactly where the volume is read-only. A file system volume is bound with all that is
/// mounted below it, from its directory, or from its only file where that bears the name of the
/// destination; a block volume is mounted with its own file system from a disk.
pub open spec fn mounts_volume(mount: JsonView, v: VolumeInfo, disk: Seq<char>) -> bool {
    &&& mount.field("destination"@) == Some(JsonView::Text(v.destination@))
    &&& oci::lists_option(mount, "ro"@) <==> v.readonly
    &&& v.is_block ==> {
        &&& mount.field("type"@) == Some(JsonView::Text(v.fs_type@))
        &&& mount.field("source"@) == Some(JsonView::Text("/dev/"@ + disk))
        &&& !oci::lists_option(mount, "rbind"@)
    }
    &&& !v.is_block ==> {
        &&& mount.field("type"@) == Some(JsonView::Text("bind"@))
        &&& oci::lists_option(mount, "rbind"@)
        &&& if v.inline_files@.len() == 1 && paths::file_name(v.destination@).len() > 0
            && paths::file_name(v.inline_files@[0].path@) == paths::file_name(v.destination@) {
            mount.field("source"@) == Some(
                JsonView::Text(paths::joined(v.source@, v.inline_files@[0].path@)),
            )
        } else {
            mount.field("source"@) == Some(JsonView::Text(v.source@))
        }
    }
}

proof fn lemma_mount_keys()
    ensures
        "destination"@ != "type"@,
        "destination"@ != "source"@,
        "destination"@ != "options"@,
        "type"@ != "source"@,
        "type"@ != "options"@,
        "source"@ != "options"@,
        "ro"@ != "rbind"@,
{
    reveal_strlit("destination");
    reveal_strlit("type");
    reveal_strlit("source");
    reveal_strlit("options");
    reveal_strlit("ro");
    reveal_strlit("rbind");
    assert("destination"@[0] == 'd');
    assert("type"@[0] == 't');
    assert("source"@[0] == 's');
    assert("options"@[0] == 'o');
    assert("ro"@.len() == 2);
    assert("rbind"@.len() == 5);
}

proof fn lemma_mount_document(
    destination: Seq<char>,
    ty: Seq<char>,
    source: Seq<char>,
    options: Seq<Seq<char>>,
    option: Seq<char>,
)
    ensures
        ({
            let m = mount_document(destination, ty, source, Some(options));
            &&& m.field("destination"@) == Some(JsonView::Text(destination))
            &&& m.field("type"@) == Some(JsonView::Text(ty))
            &&& m.field("source"@) == Some(JsonView::Text(source))
            &&& oci::lists_option(m, option) <==> options.contains(option)
        }),
{
    lemma_mount_keys();
    let m = mount_document(destination, ty, source, Some(options));
    let a = Seq::new(options.len(), |i: int| JsonView::Text(options[i]));
    assert(m.field("options"@) == Some(JsonView::Array(a)));
    if options.contains(option) {
        let k = choose|k: int| 0 <= k < options.len() && options[k] == option;
        assert(a[k] == JsonView::Text(option));
    }
    if oci::lists_option(m, option) {
        let k = choose|k: int| 0 <= k < a.len() && #[trigger] a[k] == JsonView::Text(option);
        assert(options[k] == option);
    }
}

proof fn lemma_bind_mount(v: VolumeInfo)
    requires
        !v.is_block,
    ensures
        mounts_volume(bind_mount(v), v, Seq::empty()),
{
    lemma_mount_keys();
    let o = if v.readonly {
        seq!["rbind"@, "ro"@]
    } else {
        seq!["rbind"@]
    };
    assert(o[0] == "rbind"@);
    assert(v.readonly ==> o[1] == "ro"@);
    lemma_mount_document(v.destination@, "bind"@, bind_source(v), o, "ro"@);
    lemma_mount_document(v.destination@, "bind"@, bind_source(v), o, "rbind"@);
}

proof fn lemma_block_mount(v: VolumeInfo, disk: Seq<char>)
    requires
        v.is_block,
    ensures
        mounts_volume(block_mount(v, disk), v, disk),
{
    lemma_mount_keys();
    let o = if v.readonly {
        seq!["ro"@]
    } else {
        Seq::empty()
    };
    assert(v.readonly ==> o[0] == "ro"@);
    lemma_mount_document(v.destination@, v.fs_type@, container::device_path(disk), o, "ro"@);
    lemma_mount_document(v.destination@, v.fs_type@, container::device_path(disk), o, "rbind"@);
}

/// Every mount that the volumes of a container get is that of one of them, in their order: a mount
/// is read-only exactly where its volume is. All file system volumes have one, and so have the block
/// volumes for as long as there are disks that were not known. Each block volume is on a disk of
/// its own, which was there and not known. The result says of which volume each mount is, and on
/// which disk.
pub proof fn law_mounts_of_volumes(
    vols: Seq<VolumeInfo>,
    m: ManagerView,
    current: Seq<Seq<char>>,
) -> (res: (Seq<int>, Seq<Seq<char>>))
    ensures
        res.0.len() == volume_mounts(vols, m, current).0.len(),
        res.1.len() == res.0.len(),
        forall|i: int| 0 <= i < res.0.len() ==> 0 <= #[trigger] res.0[i] < vols.len(),
        forall|i: int, j: int|
            0 <= i < j < res.0.len() ==> #[trigger] res.0[i] < #[trigger] res.0[j],
        forall|i: int|
            0 <= i < res.0.len() ==> mounts_volume(
                #[trigger] volume_mounts(vols, m, current).0[i],
                vols[res.0[i]],
                res.1[i],
            ),
        forall|i: int|
            0 <= i < res.0.len() && vols[#[trigger] res.0[i]].is_block ==> current.contains(
                res.1[i],
            ) && !m.known.contains(res.1[i]) && volume_mounts(vols, m, current).1.known.contains(
                res.1[i],
            ),
        forall|i: int, j: int|
            0 <= i < j < res.0.len() && vols[#[trigger] res.0[i]].is_block
                && vols[#[trigger] res.0[j]].is_block ==> res.1[i] != res.1[j],
        forall|k: int|
            0 <= k < vols.len() && !(#[trigger] vols[k]).is_block ==> exists|i: int|
                0 <= i < res.0.len() && #[trigger] res.0[i] == k,
        (exists|k: int|
            0 <= k < vols.len() && (forall|i: int|
                0 <= i < res.0.len() ==> #[trigger] res.0[i] != k) && (#[trigger] vols[k]).is_block)
            ==> forall|d: int|
            0 <= d < current.len() ==> volume_mounts(vols, m, current).1.known.contains(
                #[trigger] current[d],
            ),
        volume_mounts(vols, m, current).1.containers == m.containers,
        forall|d: Seq<char>|
            m.known.contains(d) ==> #[trigger] volume_mounts(vols, m, current).1.known.contains(d),
    decreases vols.len(),
{
    if vols.len() == 0 {
        (Seq::empty(), Seq::empty())
    } else {
        let most = vols.drop_last();
        let n = vols.len() - 1;
        let v = vols.last();
        let (from, disks) = law_mounts_of_volumes(most, m, current);
        let (before, mid) = volume_mounts(most, m, current);
        let (all, end) = volume_mounts(vols, m, current);
        container::law_first_new(current, mid.known);
        let disk = container::first_new(current, mid.known);
        let res = if !v.is_block {
            lemma_bind_mount(v);
            (from.push(n), disks.push(Seq::empty()))
        } else {
            match disk {
                Some(d) => {
                    lemma_block_mount(v, d);
                    (from.push(n), disks.push(d))
                },
                None => (from, disks),
            }
        };
        assert forall|i: int| 0 <= i < res.0.len() implies mounts_volume(
            #[trigger] all[i],
            vols[res.0[i]],
            res.1[i],
        ) by {
            if i < from.len() {
                assert(all[i] == before[i]);
                assert(vols[from[i]] == most[from[i]]);
            }
        }
        assert forall|i: int|
            0 <= i < res.0.len() && vols[#[trigger] res.0[i]].is_block implies current.contains(
            res.1[i],
        ) && !m.known.contains(res.1[i]) && end.known.contains(res.1[i]) by {
            if i < from.len() {
                assert(vols[from[i]] == most[from[i]]);
                assert(most[from[i]].is_block);
            }
        }
        assert forall|i: int, j: int|
            0 <= i < j < res.0.len() && vols[#[trigger] res.0[i]].is_block
                && vols[#[trigger] res.0[j]].is_block implies res.1[i] != res.1[j] by {
            assert(vols[from[i]] == most[from[i]]);
            assert(most[from[i]].is_block);
            if j < from.len() {
                assert(vols[from[j]] == most[from[j]]);
            } else {
                assert(mid.known.contains(disks[i]));
            }
        }
        assert forall|k: int| 0 <= k < vols.len() && !(#[trigger] vols[k]).is_block implies exists|
            i: int,
        |
            0 <= i < res.0.len() && #[trigger] res.0[i] == k by {
            if k < n {
                assert(most[k] == vols[k]);
                let i = choose|i: int| 0 <= i < from.len() && #[trigger] from[i] == k;
                assert(res.0[i] == k);
            } else {
                assert(res.0[from.len() as int] == k);
            }
        }
        if exists|k: int|
            0 <= k < vols.len() && (forall|i: int|
                0 <= i < res.0.len() ==> #[trigger] res.0[i] != k) && (#[trigger] vols[k]).is_block {
            let k = choose|k: int|
                0 <= k < vols.len() && (forall|i: int|
                    0 <= i < res.0.len() ==> #[trigger] res.0[i] != k) && (
                #[trigger] vols[k]).is_block;
            if k < n {
                assert(most[k] == vols[k]);
                assert forall|i: int| 0 <= i < from.len() implies #[trigger] from[i] != k by {
                    assert(res.0[i] != k);
                }
            } else if disk is Some {
                assert(res.0[from.len() as int] == n);
            }
        }
        res
    }
}

/// An adapted specification is the one it was made from, but for the Linux and process sections,
/// the hostname and the mounts: every other entry stays as it is, and nothing is added but mounts.
pub proof fn law_rest_is_kept(spec: JsonView, mounts: Seq<JsonView>, key: Seq<char>)
    requires
        spec is Object,
    ensures
        key != "linux"@ && key != "process"@ && key != "hostname"@ && key != "mounts"@ ==> adapted(
            spec,
            mounts,
        ).field(key) == spec.field(key),
        adapted(spec, mounts).field("mounts"@) == Some(JsonView::Array(mounts)),
        adapted(spec, mounts).field("hostname"@) is None,
        spec.field("process"@) matches Some(JsonView::Object(p)) ==> (adapted(spec, mounts).field(
            "process"@,
        ) matches Some(JsonView::Object(q)) && !q.contains_key("apparmorProfile"@)
            && !q.contains_key("selinuxLabel"@) && !q.contains_key("oomScoreAdj"@) && (key
            != "apparmorProfile"@ && key != "selinuxLabel"@ && key != "oomScoreAdj"@ ==> (
        q.contains_key(key) == p.contains_key(key) && (p.contains_key(key) ==> q[key] == p[key])))),
        spec.field("linux"@) matches Some(JsonView::Object(l)) ==> (adapted(spec, mounts).field(
            "linux"@,
        ) matches Some(JsonView::Object(q)) && (key != "namespaces"@ && key != "cgroupsPath"@ && key
            != "maskedPaths"@ && key != "readonlyPaths"@ && key != "resources"@ && key != "seccomp"@
            ==> (q.contains_key(key) == l.contains_key(key) && (l.contains_key(key) ==> q[key]
            == l[key])))),
{
    lemma_keys_differ();
}

/// A container gets a process file system, its own device and terminal file systems, and a
/// read-only system file system, before any volume.
pub proof fn law_system_mounts()
    ensures
        system_mounts().len() == 4,
        system_mounts()[0].field("destination"@) == Some(JsonView::Text("/proc"@)),
        system_mounts()[0].field("type"@) == Some(JsonView::Text("proc"@)),
        system_mounts()[1].field("destination"@) == Some(JsonView::Text("/dev"@)),
        system_mounts()[1].field("type"@) == Some(JsonView::Text("tmpfs"@)),
        system_mounts()[2].field("destination"@) == Some(JsonView::Text("/dev/pts"@)),
        system_mounts()[2].field("type"@) == Some(JsonView::Text("devpts"@)),
        system_mounts()[3].field("destination"@) == Some(JsonView::Text("/sys"@)),
        system_mounts()[3].field("type"@) == Some(JsonView::Text("sysfs"@)),
        oci::lists_option(system_mounts()[3], "ro"@),
        forall|i: int|
            1 <= i < 4 ==> oci::lists_option(#[trigger] system_mounts()[i], "nosuid"@),
{
    lemma_mount_keys();
    let dev = seq!["nosuid"@, "strictatime"@, "mode=755"@, "size=65536k"@];
    let pts = seq!["nosuid"@, "noexec"@, "newinstance"@, "ptmxmode=0666"@, "mode=0620"@];
    let sys = seq!["nosuid"@, "noexec"@, "nodev"@, "ro"@];
    assert(dev[0] == "nosuid"@ && pts[0] == "nosuid"@ && sys[0] == "nosuid"@ && sys[3] == "ro"@);
    lemma_mount_document("/dev"@, "tmpfs"@, "tmpfs"@, dev, "nosuid"@);
    lemma_mount_document("/dev/pts"@, "devpts"@, "devpts"@, pts, "nosuid"@);
    lemma_mount_document("/sys"@, "sysfs"@, "sysfs"@, sys, "nosuid"@);
    lemma_mount_document("/sys"@, "sysfs"@, "sysfs"@, sys, "ro"@);
}

/// Of the namespaces a container keeps two of its own: for mounts and for processes. It shares all
/// others with the guest.
pub proof fn law_kept_namespaces()
    ensures
        kept_namespaces() matches JsonView::Array(a) && a.len() == 2 && a[0].field("type"@) == Some(
            JsonView::Text("mount"@),
        ) && a[1].field("type"@) == Some(JsonView::Text("pid"@)) && forall|i: int, k: Seq<char>|
            0 <= i < 2 && k != "type"@ ==> (#[trigger] a[i].field(k)) is None,
{
}

} // verus!
