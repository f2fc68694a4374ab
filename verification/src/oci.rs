//! What the shim reads from a container's OCI specification.

use crate::annotations;
use crate::hash;
use crate::json;
use crate::json::{Json, JsonView};
use crate::tap;
use crate::text;
use vstd::hash_map::StringHashMap;
use vstd::prelude::*;

verus! {

/// The text of an annotation.
pub open spec fn annotation(spec: JsonView, key: Seq<char>) -> Option<Seq<char>> {
    json::opt_text(spec.at(seq!["annotations"@, key]))
}

fn annotation_of<'a>(spec: &'a Json, key: &str) -> (res: Option<&'a str>)
    ensures
        text::opt_str(res) == annotation(spec@, key@),
{
    let path: [&str; 2] = ["annotations", key];
    assert(text::strs(path@) =~= seq!["annotations"@, key@]);
    match spec.pointer(&path) {
        Some(v) => v.as_str(),
        None => None,
    }
}

/// The key of the annotation that tells sandboxes from containers.
pub const CRI_CONTAINER_TYPE: &'static str = "io.kubernetes.cri.container-type";

/// The key of the annotation that names a container's sandbox.
pub const CRI_SANDBOX_ID: &'static str = "io.kubernetes.cri.sandbox-id";

/// Whether a specification describes a sandbox, and the name of its sandbox.
pub open spec fn container_type(spec: JsonView, default_id: Seq<char>) -> (bool, Seq<char>) {
    (
        annotation(spec, CRI_CONTAINER_TYPE@) == Some("sandbox"@),
        match annotation(spec, CRI_SANDBOX_ID@) {
            Some(s) => s,
            None => default_id,
        },
    )
}

/// Tells from a specification whether a container is a sandbox, and which sandbox it is in.
pub fn container_type_of(spec: &Json, default_id: &str) -> (res: (bool, String))
    ensures
        (res.0, res.1@) == container_type(spec@, default_id@),
{
    let is_sandbox: bool = match annotation_of(spec, CRI_CONTAINER_TYPE) {
        Some(s) => text::same(s, "sandbox"),
        None => false,
    };
    let sandbox_id: String = match annotation_of(spec, CRI_SANDBOX_ID) {
        Some(s) => s.to_owned(),
        None => default_id.to_owned(),
    };
    (is_sandbox, sandbox_id)
}

/// The document that an optional text is; null where there is no text, or it is no document.
pub open spec fn document_or_null(data: Option<Seq<char>>) -> JsonView {
    match data {
        Some(t) => match json::parsed(t) {
            Some(d) => d,
            None => JsonView::Null,
        },
        None => JsonView::Null,
    }
}

/// Reads the document that an optional text is.
fn parse_or_null(data: Option<&str>) -> (res: Json)
    ensures
        res@ == document_or_null(text::opt_str(data)),
{
    match data {
        Some(t) => match json::parse(t) {
            Some(d) => d,
            None => Json::Null,
        },
        None => Json::Null,
    }
}

/// Tells from the text of a specification, where it could be read, whether a container is a
/// sandbox, and which sandbox it is in. Without a specification it is a container in a sandbox of
/// its own name.
pub fn parse_container_type(data: Option<&str>, default_id: &str) -> (res: (bool, String))
    ensures
        (res.0, res.1@) == container_type(document_or_null(text::opt_str(data)), default_id@),
{
    let spec: Json = parse_or_null(data);
    container_type_of(&spec, default_id)
}

/// What a sandbox is configured with.
pub struct SandboxSpec {
    /// The network namespace of the pod.
    pub netns: Option<String>,
    pub annotations: StringHashMap<String>,
    /// The memory request in MiB.
    pub mem_request: Option<u64>,
    /// The memory limit in MiB.
    pub mem_limit: Option<u64>,
    pub cgroups_path: Option<String>,
}

/// The path of the first network namespace in a list of namespaces.
pub open spec fn first_network(a: Seq<JsonView>) -> Option<Seq<char>>
    decreases a.len(),
{
    if a.len() == 0 {
        None
    } else if json::opt_text(a[0].field("type"@)) == Some("network"@) {
        json::opt_text(a[0].field("path"@))
    } else {
        first_network(a.skip(1))
    }
}

/// The network namespace of a specification.
pub open spec fn netns_of(spec: JsonView) -> Option<Seq<char>> {
    match spec.at(seq!["linux"@, "namespaces"@]) {
        Some(JsonView::Array(a)) => first_network(a),
        _ => None,
    }
}

/// Whether `s` is what a specification configures.
pub open spec fn sandbox_spec(spec: JsonView, s: SandboxSpec) -> bool {
    &&& text::opt_string(s.netns) == netns_of(spec)
    &&& annotations::collected(annotations::annotation_entries(spec), s.annotations@)
    &&& s.mem_request == annotations::memory_mb(spec, "reservation"@)
    &&& s.mem_limit == annotations::memory_mb(spec, "limit"@)
    &&& text::opt_string(s.cgroups_path) == json::opt_text(
        spec.at(seq!["linux"@, "cgroupsPath"@]),
    )
}

fn find_network(v: &Vec<Json>) -> (res: Option<String>)
    ensures
        text::opt_string(res) == first_network(json::elements(v@)),
{
    broadcast use json::lemma_elements;

    let ghost e = json::elements(v@);
    let mut i: usize = 0;
    assert(e.skip(0) =~= e);
    while i < v.len()
        invariant
            i <= v@.len(),
            e == json::elements(v@),
            e.len() == v@.len(),
            forall|k: int| 0 <= k < v@.len() ==> #[trigger] e[k] == v@[k]@,
            first_network(e) == first_network(e.skip(i as int)),
        decreases v@.len() - i,
    {
        assert(e.skip(i as int)[0] == v@[i as int]@);
        assert(e.skip(i as int).skip(1) =~= e.skip(i + 1));
        let network: bool = match v[i].get("type") {
            Some(t) => match t.as_str() {
                Some(s) => text::same(s, "network"),
                None => false,
            },
            None => false,
        };
        if network {
            return match v[i].get("path") {
                Some(p) => match p.as_str() {
                    Some(s) => Some(s.to_owned()),
                    None => None,
                },
                None => None,
            };
        }
        i += 1;
    }
    None
}

/// Reads what a sandbox is configured with from a parsed specification.
pub fn sandbox_spec_of(spec: &Json) -> (res: SandboxSpec)
    ensures
        sandbox_spec(spec@, res),
{
    let ns_path: [&str; 2] = ["linux", "namespaces"];
    assert(text::strs(ns_path@) =~= seq!["linux"@, "namespaces"@]);
    let netns: Option<String> = match spec.pointer(&ns_path) {
        Some(Json::Array(v)) => find_network(v),
        _ => None,
    };
    let cg_path: [&str; 2] = ["linux", "cgroupsPath"];
    assert(text::strs(cg_path@) =~= seq!["linux"@, "cgroupsPath"@]);
    let cgroups_path: Option<String> = match spec.pointer(&cg_path) {
        Some(v) => match v.as_str() {
            Some(s) => Some(s.to_owned()),
            None => None,
        },
        None => None,
    };
    let (mem_request, mem_limit) = annotations::memory_resources_from_spec(spec);
    SandboxSpec {
        netns,
        annotations: annotations::annotations_from_spec(spec),
        mem_request,
        mem_limit,
        cgroups_path,
    }
}

/// Reads what a sandbox is configured with from the text of its specification, where that could
/// be read. Without one, nothing is configured.
pub fn parse_sandbox_spec(data: Option<&str>) -> (res: SandboxSpec)
    ensures
        sandbox_spec(document_or_null(text::opt_str(data)), res),
{
    let spec: Json = parse_or_null(data);
    sandbox_spec_of(&spec)
}

/// A volume of a container.
#[derive(Debug)]
pub struct VolumeSpec {
    pub destination: String,
    pub source: String,
    pub readonly: bool,
    pub is_block: bool,
    pub is_empty_dir: bool,
    pub fs_type: String,
    pub volume_id: String,
}

/// What a volume of a container is.
pub struct VolumeSpecView {
    pub destination: Seq<char>,
    pub source: Seq<char>,
    pub readonly: bool,
    pub is_block: bool,
    pub is_empty_dir: bool,
    pub fs_type: Seq<char>,
    pub volume_id: Seq<char>,
}

impl View for VolumeSpec {
    type V = VolumeSpecView;

    open spec fn view(&self) -> VolumeSpecView {
        VolumeSpecView {
            destination: self.destination@,
            source: self.source@,
            readonly: self.readonly,
            is_block: self.is_block,
            is_empty_dir: self.is_empty_dir,
            fs_type: self.fs_type@,
            volume_id: self.volume_id@,
        }
    }
}

/// The mount destinations that are no volumes: the guest has its own.
pub open spec fn is_system_mount(dest: Seq<char>) -> bool {
    ||| dest == "/proc"@
    ||| dest == "/dev"@
    ||| dest == "/dev/pts"@
    ||| dest == "/dev/mqueue"@
    ||| dest == "/dev/shm"@
    ||| dest == "/sys"@
    ||| dest == "/sys/fs/cgroup"@
}

/// Decides [`is_system_mount`].
pub fn system_mount(dest: &str) -> (res: bool)
    ensures
        res == is_system_mount(dest@),
{
    text::same(dest, "/proc") || text::same(dest, "/dev") || text::same(dest, "/dev/pts")
        || text::same(dest, "/dev/mqueue") || text::same(dest, "/dev/shm") || text::same(
        dest,
        "/sys",
    ) || text::same(dest, "/sys/fs/cgroup")
}

/// Whether a mount is a volume: a bind mount with a source, not over a system directory.
pub open spec fn is_volume(mount: JsonView) -> bool {
    &&& !is_system_mount(tap::text_or_empty(mount, "destination"@))
    &&& tap::text_or_empty(mount, "type"@) == "bind"@
    &&& tap::text_or_empty(mount, "source"@).len() > 0
}

/// Whether the options of a mount hold a text.
pub open spec fn has_option(mount: JsonView, option: Seq<char>) -> bool {
    match mount.field("options"@) {
        Some(JsonView::Array(a)) => a.contains(JsonView::Text(option)),
        _ => false,
    }
}

/// The volume that a mount stands for. `blocks` holds the sources that are block devices, with
/// the type of the file system on each. A writable directory under a path with `empty-dir` in it
/// is an emptyDir.
pub open spec fn volume(mount: JsonView, blocks: Map<Seq<char>, String>) -> VolumeSpecView {
    let destination = tap::text_or_empty(mount, "destination"@);
    let source = tap::text_or_empty(mount, "source"@);
    let readonly = has_option(mount, "ro"@);
    let is_block = blocks.contains_key(source);
    VolumeSpecView {
        destination,
        source,
        readonly,
        is_block,
        is_empty_dir: !readonly && !is_block && text::has_substring(source, "empty-dir"@),
        fs_type: if is_block {
            blocks[source]@
        } else {
            Seq::empty()
        },
        volume_id: hash::volume_id(destination),
    }
}

/// The volumes among a list of mounts, in order.
pub open spec fn volumes(
    mounts: Seq<JsonView>,
    blocks: Map<Seq<char>, String>,
) -> Seq<VolumeSpecView>
    decreases mounts.len(),
{
    if mounts.len() == 0 {
        Seq::empty()
    } else if is_volume(mounts.last()) {
        volumes(mounts.drop_last(), blocks).push(volume(mounts.last(), blocks))
    } else {
        volumes(mounts.drop_last(), blocks)
    }
}

/// A volume is named after its destination.
pub proof fn law_volumes_named_by_destination(
    mounts: Seq<JsonView>,
    blocks: Map<Seq<char>, String>,
)
    ensures
        forall|i: int|
            0 <= i < volumes(mounts, blocks).len() ==> (#[trigger] volumes(
                mounts,
                blocks,
            )[i]).volume_id == hash::volume_id(volumes(mounts, blocks)[i].destination),
    decreases mounts.len(),
{
    if mounts.len() > 0 {
        law_volumes_named_by_destination(mounts.drop_last(), blocks);
        let before = volumes(mounts.drop_last(), blocks);
        let all = volumes(mounts, blocks);
        assert forall|i: int| 0 <= i < all.len() implies (#[trigger] all[i]).volume_id
            == hash::volume_id(all[i].destination) by {
            if i < before.len() {
                assert(all[i] == before[i]);
            }
        }
    }
}

/// The mounts of a specification.
pub open spec fn mounts_of(spec: JsonView) -> Seq<JsonView> {
    match spec.at(seq!["mounts"@]) {
        Some(JsonView::Array(a)) => a,
        _ => Seq::empty(),
    }
}

/// What a list of volumes is.
pub open spec fn volume_views(v: Seq<VolumeSpec>) -> Seq<VolumeSpecView> {
    Seq::new(v.len(), |i: int| v[i]@)
}

fn option_present(mount: &Json, option: &str) -> (res: bool)
    ensures
        res == has_option(mount@, option@),
{
    broadcast use json::lemma_elements;

    match mount.get("options") {
        Some(Json::Array(v)) => {
            let ghost e = json::elements(v@);
            let mut i: usize = 0;
            while i < v.len()
                invariant
                    i <= v@.len(),
                    e == json::elements(v@),
                    e.len() == v@.len(),
                    mount@.field("options"@) == Some(JsonView::Array(e)),
                    forall|k: int| 0 <= k < v@.len() ==> #[trigger] e[k] == v@[k]@,
                    forall|k: int| 0 <= k < i ==> #[trigger] e[k] != JsonView::Text(option@),
                decreases v@.len() - i,
            {
                if let Some(s) = v[i].as_str() {
                    if text::same(s, option) {
                        assert(e[i as int] == JsonView::Text(option@));
                        return true;
                    }
                }
                i += 1;
            }
            false
        },
        _ => false,
    }
}

fn is_volume_mount(mount: &Json) -> (res: bool)
    ensures
        res == is_volume(mount@),
{
    !system_mount(tap::text_at(mount, "destination")) && text::same(
        tap::text_at(mount, "type"),
        "bind",
    ) && !tap::text_at(mount, "source").is_empty()
}

fn volume_of(mount: &Json, blocks: &StringHashMap<String>) -> (res: VolumeSpec)
    ensures
        res@ == volume(mount@, blocks@),
{
    let destination: &str = tap::text_at(mount, "destination");
    let source: &str = tap::text_at(mount, "source");
    let readonly: bool = option_present(mount, "ro");
    let (is_block, fs_type) = match blocks.get(source) {
        Some(fs) => (true, fs.clone()),
        None => (false, String::new()),
    };
    let is_empty_dir: bool = !readonly && !is_block && text::contains(source, "empty-dir");
    assert(!is_block ==> fs_type@ =~= Seq::<char>::empty());
    VolumeSpec {
        destination: destination.to_owned(),
        source: source.to_owned(),
        readonly,
        is_block,
        is_empty_dir,
        fs_type,
        volume_id: hash::volume_id_for(destination),
    }
}

/// Finds the volumes in a parsed specification. `blocks` holds the sources that are block devices,
/// with the type of the file system on each, empty where that is unknown.
pub fn volumes_of(spec: &Json, blocks: &StringHashMap<String>) -> (res: Vec<VolumeSpec>)
    ensures
        volume_views(res@) == volumes(mounts_of(spec@), blocks@),
{
    broadcast use json::lemma_elements;

    let path: [&str; 1] = ["mounts"];
    assert(text::strs(path@) =~= seq!["mounts"@]);
    let mut out: Vec<VolumeSpec> = Vec::new();
    match spec.pointer(&path) {
        Some(Json::Array(v)) => {
            let ghost e = json::elements(v@);
            let mut i: usize = 0;
            assert(e.take(0) =~= Seq::<JsonView>::empty());
            while i < v.len()
                invariant
                    i <= v@.len(),
                    e == json::elements(v@),
                    e.len() == v@.len(),
                    forall|k: int| 0 <= k < v@.len() ==> #[trigger] e[k] == v@[k]@,
                    volume_views(out@) =~= volumes(e.take(i as int), blocks@),
                decreases v@.len() - i,
            {
                assert(e.take(i + 1).drop_last() =~= e.take(i as int));
                assert(e.take(i + 1).last() == v@[i as int]@);
                if is_volume_mount(&v[i]) {
                    let ghost was = out@;
                    let x: VolumeSpec = volume_of(&v[i], blocks);
                    let ghost xv = x@;
                    out.push(x);
                    assert(volume_views(out@) =~= volume_views(was).push(xv));
                }
                i += 1;
            }
            assert(e.take(v@.len() as int) =~= e);
        },
        _ => {},
    }
    assert(out@.len() == 0 ==> volume_views(out@) =~= Seq::<VolumeSpecView>::empty());
    out
}

/// A specification that is not a JSON document.
#[derive(Debug, Clone, Copy, PartialEq, Eq, Structural)]
pub struct InvalidSpec;

/// Finds the volumes in the text of a specification. A text that is no document is an error,
/// since volumes would be missing without notice.
pub fn extract_volumes(data: &str, blocks: &StringHashMap<String>) -> (res: Result<
    Vec<VolumeSpec>,
    InvalidSpec,
>)
    ensures
        match res {
            Ok(v) => json::parsed(data@) matches Some(spec) && volume_views(v@) == volumes(
                mounts_of(spec),
                blocks@,
            ),
            Err(_) => json::parsed(data@) is None,
        },
{
    match json::parse(data) {
        Some(spec) => Ok(volumes_of(&spec, blocks)),
        None => Err(InvalidSpec),
    }
}

/// The sources of the volumes among a list of mounts.
pub open spec fn sources(mounts: Seq<JsonView>) -> Seq<Seq<char>> {
    let v = volumes(mounts, Map::empty());
    Seq::new(v.len(), |i: int| v[i].source)
}

/// The sources to look at before the volumes are extracted: each may be a block device.
pub fn volume_sources(data: &str) -> (res: Vec<String>)
    ensures
        text::strings(res@) == match json::parsed(data@) {
            Some(spec) => sources(mounts_of(spec)),
            None => Seq::empty(),
        },
{
    let mut out: Vec<String> = Vec::new();
    let none: StringHashMap<String> = StringHashMap::new();
    match json::parse(data) {
        Some(spec) => {
            let vols: Vec<VolumeSpec> = volumes_of(&spec, &none);
            let ghost views = volume_views(vols@);
            let mut i: usize = 0;
            while i < vols.len()
                invariant
                    i <= vols@.len(),
                    out@.len() == i,
                    forall|k: int| 0 <= k < i ==> (#[trigger] out@[k])@ == vols@[k].source@,
                decreases vols@.len() - i,
            {
                out.push(vols[i].source.clone());
                i += 1;
            }
            assert(views.len() == vols@.len());
            assert forall|k: int| 0 <= k < vols@.len() implies text::strings(out@)[k]
                == views[k].source by {
                assert(out@[k]@ == vols@[k].source@);
            }
            assert(text::strings(out@) =~= sources(mounts_of(spec@)));
        },
        None => {
            assert(text::strings(out@) =~= Seq::<Seq<char>>::empty());
        },
    }
    out
}

/// The file system type in the output of a probe: nothing where the probe found none.
pub fn detect_block_fs_type(output: &[u8]) -> (res: Option<String>)
    ensures
        text::opt_string(res) == {
            let t = text::trimmed(text::lossy(output@));
            if t.len() == 0 {
                None
            } else {
                Some(t)
            }
        },
        text::opt_string(res) == probed(text::lossy(output@)),
{
    let raw: String = text::from_utf8_lossy(output);
    let fs: String = text::trim(raw.as_str());
    if fs.as_str().is_empty() {
        None
    } else {
        Some(fs)
    }
}

/// No volume is a system mount, and each has a source.
pub proof fn law_no_system_volumes(mounts: Seq<JsonView>, blocks: Map<Seq<char>, String>, i: int)
    requires
        0 <= i < volumes(mounts, blocks).len(),
    ensures
        !is_system_mount(volumes(mounts, blocks)[i].destination),
        volumes(mounts, blocks)[i].source.len() > 0,
        volumes(mounts, blocks)[i].is_empty_dir ==> !volumes(mounts, blocks)[i].readonly
            && !volumes(mounts, blocks)[i].is_block,
    decreases mounts.len(),
{
    if mounts.len() > 0 {
        let before = volumes(mounts.drop_last(), blocks);
        if i < before.len() {
            law_no_system_volumes(mounts.drop_last(), blocks, i);
        }
    }
}

/// Whether `option` is one of the texts in the list of options of a mount.
pub open spec fn lists_option(mount: JsonView, option: Seq<char>) -> bool {
    mount.field("options"@) matches Some(JsonView::Array(a)) && exists|k: int|
        0 <= k < a.len() && #[trigger] a[k] == JsonView::Text(option)
}

/// Whether the text under a key of a mount is `t`; where there is none, whether `t` is empty.
pub open spec fn reads(mount: JsonView, key: Seq<char>, t: Seq<char>) -> bool {
    match mount.field(key) {
        Some(JsonView::Text(s)) => t == s,
        _ => t.len() == 0,
    }
}

/// Whether `t` occurs in `s`, between some characters in front of it and some behind it.
pub open spec fn inside(s: Seq<char>, t: Seq<char>) -> bool {
    exists|a: Seq<char>, b: Seq<char>| s == #[trigger] (a + t + b)
}

/// What a volume has from the mount it stands for.
pub open spec fn stands_for(
    v: VolumeSpecView,
    mount: JsonView,
    blocks: Map<Seq<char>, String>,
) -> bool {
    &&& reads(mount, "destination"@, v.destination)
    &&& reads(mount, "source"@, v.source)
    &&& v.readonly <==> lists_option(mount, "ro"@)
    &&& v.is_block <==> blocks.contains_key(v.source)
    &&& v.is_block ==> v.fs_type == blocks[v.source]@
    &&& !v.is_block ==> v.fs_type.len() == 0
    &&& v.is_empty_dir <==> !lists_option(mount, "ro"@) && !v.is_block && inside(
        v.source,
        "empty-dir"@,
    )
}

/// Whether a mount is one that volumes come from: it is a bind mount, has a source, and does not
/// stand over a directory that the guest has of its own.
pub open spec fn binds(mount: JsonView) -> bool {
    &&& mount.field("type"@) == Some(JsonView::Text("bind"@))
    &&& mount.field("source"@) matches Some(JsonView::Text(s)) && s.len() > 0
    &&& forall|d: Seq<char>|
        mount.field("destination"@) == Some(JsonView::Text(d)) ==> !(seq![
            "/proc"@,
            "/dev"@,
            "/dev/pts"@,
            "/dev/mqueue"@,
            "/dev/shm"@,
            "/sys"@,
            "/sys/fs/cgroup"@,
        ].contains(d))
}

proof fn lemma_system_mounts(d: Seq<char>)
    ensures
        is_system_mount(d) <==> seq![
            "/proc"@,
            "/dev"@,
            "/dev/pts"@,
            "/dev/mqueue"@,
            "/dev/shm"@,
            "/sys"@,
            "/sys/fs/cgroup"@,
        ].contains(d),
{
    let s = seq![
        "/proc"@,
        "/dev"@,
        "/dev/pts"@,
        "/dev/mqueue"@,
        "/dev/shm"@,
        "/sys"@,
        "/sys/fs/cgroup"@,
    ];
    assert(s[0] == "/proc"@ && s[1] == "/dev"@ && s[2] == "/dev/pts"@ && s[3] == "/dev/mqueue"@
        && s[4] == "/dev/shm"@ && s[5] == "/sys"@ && s[6] == "/sys/fs/cgroup"@);
}

proof fn lemma_binds(mount: JsonView)
    ensures
        is_volume(mount) <==> binds(mount),
{
    reveal_strlit("/proc");
    reveal_strlit("/dev");
    reveal_strlit("/dev/pts");
    reveal_strlit("/dev/mqueue");
    reveal_strlit("/dev/shm");
    reveal_strlit("/sys");
    reveal_strlit("/sys/fs/cgroup");
    reveal_strlit("bind");
    let d = tap::text_or_empty(mount, "destination"@);
    lemma_system_mounts(d);
    assert(d.len() == 0 ==> !is_system_mount(d));
    assert("bind"@.len() == 4);
    assert(tap::text_or_empty(mount, "type"@) == "bind"@ <==> mount.field("type"@) == Some(
        JsonView::Text("bind"@),
    ));
    if let Some(JsonView::Text(t)) = mount.field("destination"@) {
        assert(t == d);
    }
}

proof fn lemma_inside(s: Seq<char>, t: Seq<char>)
    ensures
        text::has_substring(s, t) <==> inside(s, t),
{
    if text::has_substring(s, t) {
        let at = choose|at: int| #[trigger] text::occurs_at(s, t, at);
        assert(s =~= s.take(at) + t + s.skip(at + t.len()));
    }
    if inside(s, t) {
        let (a, b) = choose|a: Seq<char>, b: Seq<char>| s == #[trigger] (a + t + b);
        assert(s.subrange(a.len() as int, (a.len() + t.len()) as int) =~= t);
        assert(text::occurs_at(s, t, a.len() as int));
    }
}

/// What a volume is follows from its mount alone: it is read-only exactly where `ro` is among the
/// options of the mount, and so a mount without that option gives a writable volume; a writable
/// volume that is no block device and has `empty-dir` in its source is an emptyDir, and no other.
pub proof fn law_volume_from_mount(mount: JsonView, blocks: Map<Seq<char>, String>)
    ensures
        stands_for(volume(mount, blocks), mount, blocks),
{
    let v = volume(mount, blocks);
    lemma_inside(v.source, "empty-dir"@);
    if let Some(JsonView::Array(a)) = mount.field("options"@) {
        if a.contains(JsonView::Text("ro"@)) {
            let k = choose|k: int| 0 <= k < a.len() && a[k] == JsonView::Text("ro"@);
            assert(a[k] == JsonView::Text("ro"@));
        }
    }
}

/// The volumes of a container are its bind mounts with a source that stand over no directory of the
/// guest's own: each of these mounts gives one volume, in the order of the mounts, and nothing else
/// does. The result says which mount each volume is from.
pub proof fn law_volumes_from_mounts(
    mounts: Seq<JsonView>,
    blocks: Map<Seq<char>, String>,
) -> (from: Seq<int>)
    ensures
        from.len() == volumes(mounts, blocks).len(),
        forall|i: int| 0 <= i < from.len() ==> 0 <= #[trigger] from[i] < mounts.len(),
        forall|i: int, j: int| 0 <= i < j < from.len() ==> #[trigger] from[i] < #[trigger] from[j],
        forall|i: int|
            0 <= i < from.len() ==> binds(mounts[#[trigger] from[i]]) && stands_for(
                volumes(mounts, blocks)[i],
                mounts[from[i]],
                blocks,
            ),
        forall|j: int|
            0 <= j < mounts.len() && binds(#[trigger] mounts[j]) ==> exists|i: int|
                0 <= i < from.len() && #[trigger] from[i] == j,
    decreases mounts.len(),
{
    if mounts.len() == 0 {
        Seq::empty()
    } else {
        let most = mounts.drop_last();
        let n = mounts.len() - 1;
        let before = law_volumes_from_mounts(most, blocks);
        lemma_binds(mounts.last());
        law_volume_from_mount(mounts.last(), blocks);
        let all = volumes(mounts, blocks);
        let res = if is_volume(mounts.last()) {
            before.push(n)
        } else {
            before
        };
        assert forall|i: int| 0 <= i < res.len() implies binds(mounts[#[trigger] res[i]])
            && stands_for(all[i], mounts[res[i]], blocks) by {
            if i < before.len() {
                assert(res[i] == before[i]);
                assert(most[before[i]] == mounts[res[i]]);
                assert(all[i] == volumes(most, blocks)[i]);
            }
        }
        assert forall|j: int| 0 <= j < mounts.len() && binds(#[trigger] mounts[j]) implies exists|
            i: int,
        |
            0 <= i < res.len() && #[trigger] res[i] == j by {
            if j < n {
                assert(most[j] == mounts[j]);
                let i = choose|i: int| 0 <= i < before.len() && #[trigger] before[i] == j;
                assert(res[i] == j);
            } else {
                assert(res[before.len() as int] == j);
            }
        }
        res
    }
}

/// Of two mounts of which only one has `ro` among its options, only one gives a read-only volume.
pub proof fn law_read_only_option_decides(
    a: JsonView,
    b: JsonView,
    blocks: Map<Seq<char>, String>,
)
    ensures
        lists_option(a, "ro"@) != lists_option(b, "ro"@) ==> volume(a, blocks).readonly != volume(
            b,
            blocks,
        ).readonly,
{
    law_volume_from_mount(a, blocks);
    law_volume_from_mount(b, blocks);
}

/// A specification describes a sandbox exactly where its container type says so, and is in the
/// sandbox that it names, or else in one of the default name.
pub proof fn law_container_type(spec: JsonView, default_id: Seq<char>)
    ensures
        container_type(spec, default_id).0 <==> (exists|a: JsonView|
            spec.field("annotations"@) == Some(a) && #[trigger] a.field(
                "io.kubernetes.cri.container-type"@,
            ) == Some(JsonView::Text("sandbox"@))),
        forall|a: JsonView|
            spec.field("annotations"@) == Some(a) ==> match #[trigger] a.field(
                "io.kubernetes.cri.sandbox-id"@,
            ) {
                Some(JsonView::Text(id)) => container_type(spec, default_id).1 == id,
                _ => container_type(spec, default_id).1 == default_id,
            },
        spec.field("annotations"@) is None ==> container_type(spec, default_id) == (
            false,
            default_id,
        ),
{
    reveal_with_fuel(JsonView::at, 3);
    let p = seq!["annotations"@, CRI_CONTAINER_TYPE@];
    let q = seq!["annotations"@, CRI_SANDBOX_ID@];
    assert(p.skip(1)[0] == CRI_CONTAINER_TYPE@);
    assert(q.skip(1)[0] == CRI_SANDBOX_ID@);
    assert(p.skip(1).skip(1).len() == 0);
    assert(q.skip(1).skip(1).len() == 0);
    if let Some(a) = spec.field("annotations"@) {
        assert(spec.at(p) == a.field(CRI_CONTAINER_TYPE@));
        assert(spec.at(q) == a.field(CRI_SANDBOX_ID@));
    }
}

/// The network namespace of a sandbox is the path of the first entry of type `network`, whatever
/// namespaces stand in front of it.
pub proof fn law_first_network(a: Seq<JsonView>)
    ensures
        match first_network(a) {
            Some(path) => exists|i: int|
                0 <= i < a.len() && is_network(#[trigger] a[i]) && a[i].field("path"@) == Some(
                    JsonView::Text(path),
                ) && forall|k: int| 0 <= k < i ==> !is_network(#[trigger] a[k]),
            None => forall|i: int|
                0 <= i < a.len() && is_network(#[trigger] a[i]) ==> (exists|k: int|
                    0 <= k <= i && is_network(#[trigger] a[k]) && !(
                    a[k].field("path"@) matches Some(JsonView::Text(_)))),
        },
    decreases a.len(),
{
    if a.len() > 0 {
        if is_network(a[0]) {
            assert(json::opt_text(a[0].field("type"@)) == Some("network"@));
        } else {
            let rest = a.skip(1);
            law_first_network(rest);
            match first_network(rest) {
                Some(path) => {
                    let i = choose|i: int|
                        0 <= i < rest.len() && is_network(#[trigger] rest[i]) && rest[i].field(
                            "path"@,
                        ) == Some(JsonView::Text(path)) && forall|k: int|
                            0 <= k < i ==> !is_network(#[trigger] rest[k]);
                    assert(a[i + 1] == rest[i]);
                    assert forall|k: int| 0 <= k < i + 1 implies !is_network(#[trigger] a[k]) by {
                        if k > 0 {
                            assert(rest[k - 1] == a[k]);
                        }
                    }
                },
                None => {
                    assert forall|i: int| 0 <= i < a.len() && is_network(#[trigger] a[i]) implies (
                    exists|k: int|
                        0 <= k <= i && is_network(#[trigger] a[k]) && !(
                        a[k].field("path"@) matches Some(JsonView::Text(_)))) by {
                        assert(rest[i - 1] == a[i]);
                        let k = choose|k: int|
                            0 <= k <= i - 1 && is_network(#[trigger] rest[k]) && !(
                            rest[k].field("path"@) matches Some(JsonView::Text(_)));
                        assert(a[k + 1] == rest[k]);
                    }
                },
            }
        }
    }
}

/// Whether a namespace is the network namespace.
pub open spec fn is_network(n: JsonView) -> bool {
    n.field("type"@) == Some(JsonView::Text("network"@))
}

/// The file system type that a probe reports.
pub open spec fn probed(output: Seq<char>) -> Option<Seq<char>> {
    let t = text::trimmed(output);
    if t.len() == 0 {
        None
    } else {
        Some(t)
    }
}

/// What a probe reports is taken without the white space around it, and white space alone is no
/// report.
pub proof fn law_probed(output: Seq<char>) -> (around: (Seq<char>, Seq<char>))
    ensures
        probed(output) matches Some(t) ==> t.len() > 0 && output == around.0 + t + around.1
            && !text::white(t[0]) && !text::white(t.last()),
        probed(output) is None ==> output == around.0 + around.1,
        forall|i: int| 0 <= i < around.0.len() ==> text::white(#[trigger] around.0[i]),
        forall|i: int| 0 <= i < around.1.len() ==> text::white(#[trigger] around.1[i]),
{
    let around = text::law_trimmed(output);
    if probed(output) is None {
        assert(text::trimmed(output) =~= Seq::<char>::empty());
        assert(output =~= around.0 + around.1);
    }
    around
}

/// The sources that are looked at before the volumes are made are those of the volumes, whatever is
/// found to be a block device.
pub proof fn law_sources_are_those_of_volumes(
    mounts: Seq<JsonView>,
    blocks: Map<Seq<char>, String>,
    i: int,
)
    ensures
        sources(mounts).len() == volumes(mounts, blocks).len(),
        0 <= i < sources(mounts).len() ==> sources(mounts)[i] == volumes(mounts, blocks)[i].source,
    decreases mounts.len(),
{
    if mounts.len() > 0 {
        law_sources_are_those_of_volumes(mounts.drop_last(), blocks, i);
        let a = volumes(mounts.drop_last(), Map::empty());
        let b = volumes(mounts.drop_last(), blocks);
        assert(sources(mounts.drop_last()).len() == a.len());
        if 0 <= i < sources(mounts).len() && i < a.len() {
            assert(sources(mounts.drop_last())[i] == a[i].source);
            assert(volumes(mounts, Map::empty())[i] == a[i]);
            assert(volumes(mounts, blocks)[i] == b[i]);
        }
    }
}

} // verus!
