//! The request that asks the guest agent for a container.

use crate::container::{InlineFileInfo, VolumeInfo};
use crate::oci::{VolumeSpec, VolumeSpecView};
use crate::text;
use vstd::prelude::*;

verus! {

/// How a volume reaches the guest.
#[derive(Debug, Clone, Copy, PartialEq, Eq, Structural)]
pub enum VolumeType {
    /// Its files come with the request.
    Filesystem,
    /// It is a disk.
    Block,
}

/// A volume in a request.
#[derive(Debug)]
pub struct VolumeMount {
    pub destination: String,
    pub source: String,
    pub volume_type: VolumeType,
    pub fs_type: String,
    pub readonly: bool,
    pub files: Vec<InlineFileInfo>,
}

/// What a volume in a request is.
pub struct VolumeMountView {
    pub destination: Seq<char>,
    pub source: Seq<char>,
    pub volume_type: VolumeType,
    pub fs_type: Seq<char>,
    pub readonly: bool,
    pub files: Seq<InlineFileInfo>,
}

impl View for VolumeMount {
    type V = VolumeMountView;

    open spec fn view(&self) -> VolumeMountView {
        VolumeMountView {
            destination: self.destination@,
            source: self.source@,
            volume_type: self.volume_type,
            fs_type: self.fs_type@,
            readonly: self.readonly,
            files: self.files@,
        }
    }
}

/// What a list of volumes in a request is.
pub open spec fn mount_views(v: Seq<VolumeMount>) -> Seq<VolumeMountView> {
    Seq::new(v.len(), |i: int| v[i]@)
}

/// Whether a volume reaches the guest as a disk.
pub open spec fn on_disk(v: VolumeSpecView) -> bool {
    v.is_block || v.is_empty_dir
}

/// The volume in a request for a container with this bundle. `files` are those of a volume that
/// is no disk.
pub open spec fn mount_for(
    v: VolumeSpecView,
    bundle: Seq<char>,
    files: Seq<InlineFileInfo>,
) -> VolumeMountView {
    if on_disk(v) {
        VolumeMountView {
            destination: v.destination,
            source: v.source,
            volume_type: VolumeType::Block,
            fs_type: if v.is_empty_dir {
                "ext4"@
            } else {
                v.fs_type
            },
            readonly: v.readonly,
            files: Seq::empty(),
        }
    } else {
        VolumeMountView {
            destination: v.destination,
            source: bundle + "/volumes/"@ + v.volume_id,
            volume_type: VolumeType::Filesystem,
            fs_type: Seq::empty(),
            readonly: v.readonly,
            files,
        }
    }
}

/// Decides [`on_disk`].
pub fn reaches_as_disk(v: &VolumeSpec) -> (res: bool)
    ensures
        res == on_disk(v@),
{
    v.is_block || v.is_empty_dir
}

/// Puts a volume into the form that a request holds.
pub fn volume_mount(v: &VolumeSpec, bundle: &str, files: Vec<InlineFileInfo>) -> (res: VolumeMount)
    ensures
        res@ == mount_for(v@, bundle@, files@),
{
    if reaches_as_disk(v) {
        let fs_type: String = if v.is_empty_dir {
            "ext4".to_owned()
        } else {
            v.fs_type.clone()
        };
        let none: Vec<InlineFileInfo> = Vec::new();
        VolumeMount {
            destination: v.destination.clone(),
            source: v.source.clone(),
            volume_type: VolumeType::Block,
            fs_type,
            readonly: v.readonly,
            files: none,
        }
    } else {
        let fs_type: String = String::new();
        assert(fs_type@ =~= Seq::<char>::empty());
        VolumeMount {
            destination: v.destination.clone(),
            source: text::join3(bundle, "/volumes/", v.volume_id.as_str()),
            volume_type: VolumeType::Filesystem,
            fs_type,
            readonly: v.readonly,
            files,
        }
    }
}

/// A request to create a container.
#[derive(Debug)]
pub struct CreateContainerRequest {
    pub container_id: String,
    pub bundle_path: String,
    pub config_json: Vec<u8>,
    /// Whether the rootfs was attached before the VM booted.
    pub rootfs_preattached: bool,
    /// How many disks the rootfs is made of.
    pub erofs_layers: u32,
    pub volumes: Vec<VolumeMount>,
}

/// The bundle that a request names for a container.
pub open spec fn bundle_path(id: Seq<char>) -> Seq<char> {
    "/run/containers/"@ + id
}

/// Names the bundle for a container.
pub fn bundle_for(id: &str) -> (res: String)
    ensures
        res@ == bundle_path(id@),
{
    text::join2("/run/containers/", id)
}

/// Whether `r` asks for a container with these properties.
pub open spec fn asks_for(
    r: CreateContainerRequest,
    id: Seq<char>,
    config: Seq<u8>,
    preattached: bool,
    disks: nat,
    volumes: Seq<VolumeMountView>,
) -> bool {
    &&& r.container_id@ == id
    &&& r.bundle_path@ == bundle_path(id)
    &&& r.config_json@ == config
    &&& r.rootfs_preattached == preattached
    &&& r.erofs_layers == disks % 0x1_0000_0000
    &&& mount_views(r.volumes@) == volumes
}

/// Puts a request together. The number of disks is sent in 32 bits.
pub fn container_request(
    id: &str,
    config: Vec<u8>,
    preattached: bool,
    disks: usize,
    volumes: Vec<VolumeMount>,
) -> (res: CreateContainerRequest)
    ensures
        asks_for(res, id@, config@, preattached, disks as nat, mount_views(volumes@)),
{
    CreateContainerRequest {
        container_id: id.to_owned(),
        bundle_path: bundle_for(id),
        config_json: config,
        rootfs_preattached: preattached,
        erofs_layers: (disks as u64 % 0x1_0000_0000) as u32,
        volumes,
    }
}

/// Whether `i` is a volume of a request as the agent takes it.
pub open spec fn taken(v: VolumeMountView, i: VolumeInfo) -> bool {
    &&& i.destination@ == v.destination
    &&& i.source@ == v.source
    &&& i.readonly == v.readonly
    &&& i.is_block == (v.volume_type == VolumeType::Block)
    &&& i.fs_type@ == v.fs_type
    &&& i.inline_files@ == v.files
}

/// Takes the volumes of a request in the agent, in order.
pub fn volume_infos(volumes: Vec<VolumeMount>) -> (res: Vec<VolumeInfo>)
    ensures
        res@.len() == volumes@.len(),
        forall|k: int|
            0 <= k < res@.len() ==> #[trigger] taken(mount_views(volumes@)[k], res@[k]),
{
    let ghost all = mount_views(volumes@);
    let mut rest: Vec<VolumeMount> = volumes;
    let mut back: Vec<VolumeInfo> = Vec::new();
    let ghost n = all.len();
    loop
        invariant_except_break
            rest@.len() + back@.len() == n,
            n == all.len(),
            mount_views(rest@) =~= all.take(rest@.len() as int),
            forall|k: int| 0 <= k < back@.len() ==> #[trigger] taken(all[n - 1 - k], back@[k]),
        ensures
            back@.len() == n,
            forall|k: int| 0 <= k < back@.len() ==> #[trigger] taken(all[n - 1 - k], back@[k]),
        decreases rest@.len(),
    {
        let ghost before = rest@;
        match rest.pop() {
            Some(v) => {
                assert(mount_views(before)[before.len() - 1] == v@);
                assert(mount_views(rest@) =~= mount_views(before).drop_last());
                let block: bool = match v.volume_type {
                    VolumeType::Block => true,
                    VolumeType::Filesystem => false,
                };
                back.push(
                    VolumeInfo {
                        destination: v.destination,
                        source: v.source,
                        readonly: v.readonly,
                        is_block: block,
                        fs_type: v.fs_type,
                        inline_files: v.files,
                    },
                );
            },
            None => {
                break;
            },
        }
    }
    let mut out: Vec<VolumeInfo> = Vec::new();
    loop
        invariant_except_break
            out@.len() + back@.len() == n,
            n == all.len(),
            forall|k: int| 0 <= k < back@.len() ==> #[trigger] taken(all[n - 1 - k], back@[k]),
            forall|k: int| 0 <= k < out@.len() ==> #[trigger] taken(all[k], out@[k]),
        ensures
            out@.len() == n,
            forall|k: int| 0 <= k < out@.len() ==> #[trigger] taken(all[k], out@[k]),
        decreases back@.len(),
    {
        let ghost before = back@;
        match back.pop() {
            Some(i) => {
                assert(taken(all[n - 1 - (before.len() - 1)], before[before.len() - 1]));
                out.push(i);
            },
            None => {
                break;
            },
        }
    }
    out
}

/// A disk on the host is a disk to the agent, and a volume that is none comes with its files.
pub proof fn law_volumes_arrive(v: VolumeSpecView, bundle: Seq<char>, files: Seq<InlineFileInfo>, i: VolumeInfo)
    requires
        taken(mount_for(v, bundle, files), i),
    ensures
        i.is_block == on_disk(v),
        i.destination@ == v.destination,
        i.readonly == v.readonly,
        !i.is_block ==> i.inline_files@ == files,
{
}

/// The size of the disk of an emptyDir, in bytes.
pub const EMPTY_DIR_BYTES: u64 = 16777216;

/// The name of the disk of an emptyDir.
pub open spec fn empty_dir_id(v: VolumeSpecView) -> Seq<char> {
    "edir-"@ + text::head_of(v.volume_id, 8)
}

/// Names the disk of an emptyDir after the first digits of the volume's name.
pub fn empty_dir_disk(v: &VolumeSpec) -> (res: String)
    requires
        text::head_is_whole(v.volume_id@, 8),
    ensures
        res@ == empty_dir_id(v@),
{
    text::join2("edir-", text::head(v.volume_id.as_str(), 8))
}

/// The arguments of `mkfs.ext4` for the disk of an emptyDir.
pub open spec fn format_arguments(image: Seq<char>) -> Seq<Seq<char>> {
    seq!["-q"@, "-F"@, "-O"@, "^has_journal"@, image]
}

/// Lists the arguments of `mkfs.ext4` for the disk of an emptyDir.
pub fn format_command(image: &str) -> (res: Vec<String>)
    ensures
        text::strings(res@) == format_arguments(image@),
{
    let a: [&str; 5] = ["-q", "-F", "-O", "^has_journal", image];
    assert(text::strs(a@) =~= format_arguments(image@));
    text::owned(&a)
}

/// A volume reaches the guest as a disk where it is a block device or an emptyDir, and else with its
/// files. Its destination, and whether it is read-only, stay. An emptyDir has an ext4 file system
/// of its own; the files of any other volume go into a directory of the bundle that bears its name.
pub proof fn law_mount_for(v: VolumeSpecView, bundle: Seq<char>, files: Seq<InlineFileInfo>)
    ensures
        ({
            let m = mount_for(v, bundle, files);
            &&& m.destination == v.destination
            &&& m.readonly == v.readonly
            &&& m.volume_type == VolumeType::Block <==> v.is_block || v.is_empty_dir
            &&& v.is_empty_dir ==> m.fs_type == "ext4"@ && m.files.len() == 0
            &&& v.is_block && !v.is_empty_dir ==> m.fs_type == v.fs_type && m.source == v.source
                && m.files.len() == 0
            &&& !v.is_block && !v.is_empty_dir ==> m.files == files && m.source == bundle
                + "/volumes/"@ + v.volume_id
        }),
{
}

/// A request asks for the container it names, with the specification and the volumes given, in the
/// bundle of that container, and says how many disks its rootfs has.
pub proof fn law_request_says(
    r: CreateContainerRequest,
    id: Seq<char>,
    config: Seq<u8>,
    preattached: bool,
    disks: nat,
    volumes: Seq<VolumeMountView>,
)
    requires
        asks_for(r, id, config, preattached, disks, volumes),
        disks <= u32::MAX,
    ensures
        r.container_id@ == id,
        r.bundle_path@ == "/run/containers/"@ + id,
        r.config_json@ == config,
        r.rootfs_preattached == preattached,
        r.erofs_layers == disks,
        r.volumes@.len() == volumes.len(),
        forall|i: int| 0 <= i < volumes.len() ==> (#[trigger] r.volumes@[i])@ == volumes[i],
{
    assert forall|i: int| 0 <= i < volumes.len() implies (#[trigger] r.volumes@[i])@
        == volumes[i] by {
        assert(mount_views(r.volumes@)[i] == volumes[i]);
    }
}

/// The image of an emptyDir is formatted by its path, and the disk of an emptyDir is named after
/// the volume.
pub proof fn law_empty_dir(v: VolumeSpecView, image: Seq<char>)
    ensures
        format_arguments(image).len() > 0,
        format_arguments(image).last() == image,
        format_arguments(image).contains("^has_journal"@),
        EMPTY_DIR_BYTES == 16 * 1024 * 1024,
        vstd::utf8::is_ascii_chars(v.volume_id) ==> empty_dir_id(v) == "edir-"@ + v.volume_id.take(
            if v.volume_id.len() < 8 {
                v.volume_id.len() as int
            } else {
                8
            },
        ),
{
    assert(format_arguments(image)[3] == "^has_journal"@);
    if vstd::utf8::is_ascii_chars(v.volume_id) {
        text::lemma_head_ascii(v.volume_id, 8);
    }
}

} // verus!
