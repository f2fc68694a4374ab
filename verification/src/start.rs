//! Starting an application container in the VM of its pod.

use crate::container::InlineFileInfo;
use crate::hash;
use crate::json;
use crate::json::JsonView;
use crate::mountinfo;
use crate::oci;
use crate::oci::{VolumeSpec, VolumeSpecView};
use crate::paths;
use crate::pod;
use crate::pod::BootRole;
use crate::request;
use crate::request::{CreateContainerRequest, VolumeMount, VolumeMountView};
use crate::text;
use crate::types::VmDisk;
use crate::vm;
use crate::vm::ApiRequest;
use vstd::hash_map::StringHashMap;
use vstd::prelude::*;

verus! {

/// A disk of a rootfs. It is read-only.
#[derive(Debug)]
pub struct RootfsDisk {
    pub path: String,
    pub id: String,
}

/// What a disk of a rootfs is.
pub struct RootfsDiskView {
    pub path: Seq<char>,
    pub id: Seq<char>,
}

impl View for RootfsDisk {
    type V = RootfsDiskView;

    open spec fn view(&self) -> RootfsDiskView {
        RootfsDiskView { path: self.path@, id: self.id@ }
    }
}

/// What a list of disks is.
pub open spec fn disk_views(v: Seq<RootfsDisk>) -> Seq<RootfsDiskView> {
    Seq::new(v.len(), |i: int| v[i]@)
}

/// The disks of a rootfs that is made of layers: one for each, numbered from zero.
pub open spec fn layer_disks(disk_id: Seq<char>, layers: Seq<Seq<char>>) -> Seq<RootfsDiskView> {
    Seq::new(
        layers.len(),
        |i: int|
            RootfsDiskView {
                path: layers[i],
                id: disk_id + "-layer"@ + text::dec(i as nat),
            },
    )
}

fn disks_of_layers(disk_id: &str, layers: &Vec<String>) -> (res: Vec<RootfsDisk>)
    ensures
        disk_views(res@) == layer_disks(disk_id@, text::strings(layers@)),
{
    let mut out: Vec<RootfsDisk> = Vec::new();
    let ghost all = layer_disks(disk_id@, text::strings(layers@));
    let mut i: usize = 0;
    while i < layers.len()
        invariant
            i <= layers@.len(),
            all == layer_disks(disk_id@, text::strings(layers@)),
            out@.len() == i,
            forall|k: int| 0 <= k < i ==> (#[trigger] out@[k])@ == all[k],
        decreases layers@.len() - i,
    {
        let number: String = text::decimal(i as u64);
        let id: String = text::join3(disk_id, "-layer", number.as_str());
        out.push(RootfsDisk { path: layers[i].clone(), id });
        i += 1;
    }
    assert(disk_views(out@) =~= all);
    out
}

/// Whether `d` are the disks that a VM boots with for a rootfs.
pub open spec fn boot_disks(disks: Seq<RootfsDiskView>, d: Seq<VmDisk>) -> bool {
    &&& d.len() == disks.len()
    &&& forall|i: int|
        0 <= i < d.len() ==> {
            &&& (#[trigger] d[i]).path@ == disks[i].path
            &&& d[i].readonly
            &&& text::opt_string(d[i].id) == Some(disks[i].id)
        }
}

/// The number of the first volume on a disk among those from `from` on, or how many volumes there
/// are.
pub open spec fn next_on_disk(volumes: Seq<VolumeSpecView>, from: int) -> int
    decreases volumes.len() - from,
{
    if 0 <= from < volumes.len() && !request::on_disk(volumes[from]) {
        next_on_disk(volumes, from + 1)
    } else {
        from
    }
}

/// The volumes in the request, with those appended that need nothing read.
pub open spec fn filled(
    volumes: Seq<VolumeSpecView>,
    bundle: Seq<char>,
    mounts: Seq<VolumeMountView>,
) -> Seq<VolumeMountView>
    decreases volumes.len() - mounts.len(),
{
    if mounts.len() < volumes.len() && request::on_disk(volumes[mounts.len() as int]) {
        filled(
            volumes,
            bundle,
            mounts.push(
                request::mount_for(volumes[mounts.len() as int], bundle, Seq::empty()),
            ),
        )
    } else {
        mounts
    }
}

/// Whether the first volumes stand in a request as they should, each in its place.
pub open spec fn delivered(
    volumes: Seq<VolumeSpecView>,
    bundle: Seq<char>,
    mounts: Seq<VolumeMountView>,
) -> bool {
    &&& mounts.len() <= volumes.len()
    &&& forall|i: int|
        0 <= i < mounts.len() ==> #[trigger] mounts[i] == request::mount_for(
            volumes[i],
            bundle,
            mounts[i].files,
        )
}

/// Why a container could not be started.
#[derive(Debug, Clone, Copy, PartialEq, Eq, Structural)]
pub enum StartError {
    /// The specification could not be read.
    ReadSpec,
    /// The specification is no JSON document.
    InvalidSpec,
    /// There is no image of the rootfs.
    Image,
    /// Another container failed to boot the VM.
    BootFailedBefore,
    /// The VM could not be booted.
    Boot,
    /// The agent of the VM that was just booted does not answer.
    AgentAfterBoot,
    /// A disk of the rootfs could not be plugged in.
    PlugDisk,
    /// The agent does not answer.
    Agent,
    /// The disk of a block volume could not be plugged in.
    PlugVolume,
    /// The image of an emptyDir could not be created.
    EmptyDirImage,
    /// The disk of an emptyDir could not be plugged in.
    PlugEmptyDir,
    /// The files of a volume could not be read.
    ReadVolume,
    /// The agent did not create the container.
    Create,
    /// The agent did not start the container.
    Start,
}

/// How far a container has come.
#[derive(Debug, Clone, Copy, PartialEq, Eq, Structural)]
pub enum StartPhase {
    ReadSpec,
    ProbeSources,
    ReadMounts,
    CheckLayers,
    Image,
    Claim,
    Boot,
    ConnectBooted,
    MarkBooted,
    PlaceInCgroup,
    MarkFailed(StartError),
    Wait,
    /// The disk with this number is being plugged in.
    PlugDisk(usize),
    Connect,
    /// The block volume with this number is being plugged in.
    PlugVolume(usize),
    /// The image of the emptyDir with this number is being created.
    EmptyDirImage(usize),
    FormatEmptyDir(usize),
    PlugEmptyDir(usize),
    ReadConfig,
    ReadVolume,
    Run,
    Running,
    Create,
    Creating,
    Start,
    Done(u32),
    Failed(StartError),
}

/// What to do next.
pub enum StartAction {
    /// Read this file as text.
    ReadText(String),
    /// See which of these are block devices, and with which file system.
    ProbeSources(Vec<String>),
    /// Read the table of mounts.
    ReadMounts,
    /// See which of these files exist.
    CheckFiles(Vec<String>),
    /// Have the image at the first of these made of the directory that is the second; the third
    /// is its key in the cache.
    MakeImage(String, String, Option<String>),
    /// Claim a role in booting the VM.
    Claim,
    /// Create and boot the VM with these disks besides its own.
    Boot(Vec<VmDisk>),
    /// Connect to the agent, or see that it is connected.
    Connect,
    /// Record that the VM is booted, and wake those that wait.
    MarkBooted,
    /// Record that the VM could not be booted, for this reason, and wake those that wait.
    MarkFailed(String),
    /// Place the hypervisor in the pod's cgroup, where it has one. That it fails is no matter.
    PlaceInCgroup,
    /// Wait until the VM is booted or has failed.
    Wait,
    /// Send this request to the hypervisor.
    Request(ApiRequest),
    /// Create this file with this many bytes.
    CreateFile(String, u64),
    /// Run `mkfs.ext4` with these arguments.
    Format(Vec<String>),
    /// Read this file as bytes.
    ReadBytes(String),
    /// Read the files below this path.
    ReadVolume(String),
    /// Take the request, and ask the agent to create the container and start it at once.
    Run,
    /// Take the request, and ask the agent to create the container.
    Create,
    /// Wait for the agent's reply to the request.
    Await,
    /// Ask the agent to start the container.
    Start(String),
    /// Nothing: the container runs, as this process.
    Done(u32),
    /// Nothing: the container does not run.
    Fail(StartError),
}

/// What came of an action.
pub enum StartEvent {
    /// What was read, where it could be.
    Text(Option<String>),
    /// The sources that are block devices, with the file system on each.
    Blocks(StringHashMap<String>),
    /// Which files exist.
    Present(Vec<bool>),
    /// Whether the action succeeded.
    Outcome(bool),
    /// The role, or why the boot failed before.
    Role(Result<BootRole, String>),
    /// Whether the action succeeded, and if not, why.
    Checked(Option<String>),
    /// What was read, where it could be.
    Bytes(Option<Vec<u8>>),
    /// The files of a volume, where they could be read.
    Files(Option<Vec<InlineFileInfo>>),
    /// The process of the container, where it was started.
    Started(Option<u32>),
}

/// A container that is being started.
#[derive(Debug)]
pub struct ContainerStart {
    id: String,
    bundle: String,
    state_dir: String,
    spec: String,
    volumes: Vec<VolumeSpec>,
    layers: Vec<String>,
    key: Option<String>,
    disks: Vec<RootfsDisk>,
    first: bool,
    reason: String,
    config: Vec<u8>,
    mounts: Vec<VolumeMount>,
    phase: StartPhase,
}

/// The state of a container that is being started.
#[verifier::ext_equal]
pub struct StartView {
    pub id: Seq<char>,
    /// The container's bundle on the host.
    pub bundle: Seq<char>,
    /// The directory of the VM's state.
    pub state_dir: Seq<char>,
    pub spec: Seq<char>,
    pub volumes: Seq<VolumeSpecView>,
    /// The erofs blobs that seem to back the rootfs.
    pub layers: Seq<Seq<char>>,
    /// The rootfs's key in the image cache.
    pub key: Option<Seq<char>>,
    pub disks: Seq<RootfsDiskView>,
    /// Whether this container boots the VM.
    pub first: bool,
    /// Why the boot or the connection to the agent failed.
    pub reason: Seq<char>,
    pub config: Seq<u8>,
    pub mounts: Seq<VolumeMountView>,
    pub phase: StartPhase,
}

impl View for ContainerStart {
    type V = StartView;

    closed spec fn view(&self) -> StartView {
        StartView {
            id: self.id@,
            bundle: self.bundle@,
            state_dir: self.state_dir@,
            spec: self.spec@,
            volumes: oci::volume_views(self.volumes@),
            layers: text::strings(self.layers@),
            key: text::opt_string(self.key),
            disks: disk_views(self.disks@),
            first: self.first,
            reason: self.reason@,
            config: self.config@,
            mounts: request::mount_views(self.mounts@),
            phase: self.phase,
        }
    }
}

impl StartView {
    pub open spec fn to(self, phase: StartPhase) -> StartView {
        StartView { phase, ..self }
    }

    /// `phase` where something succeeded, and failure where it did not.
    pub open spec fn unless(self, ok: bool, e: StartError, phase: StartPhase) -> StartView {
        self.to(
            if ok {
                phase
            } else {
                StartPhase::Failed(e)
            },
        )
    }

    /// The rootfs on the host.
    pub open spec fn rootfs(self) -> Seq<char> {
        paths::joined(self.bundle, "rootfs"@)
    }

    /// The specification on the host.
    pub open spec fn spec_file(self) -> Seq<char> {
        paths::joined(self.bundle, "config.json"@)
    }

    /// The image of the rootfs, where it is not made of layers.
    pub open spec fn image(self) -> Seq<char> {
        paths::joined(self.state_dir, pod::disk_id_spec(self.id) + ".erofs"@)
    }

    /// The name of the disk of a block volume.
    pub open spec fn volume_disk(self, i: int) -> Seq<char> {
        pod::disk_id_spec(self.id) + "-vol"@ + text::dec(i as nat)
    }

    /// The image of an emptyDir.
    pub open spec fn empty_dir_image(self, i: int) -> Seq<char> {
        paths::joined(self.state_dir, request::empty_dir_id(self.volumes[i]) + ".img"@)
    }

    /// The state in which the disk with this number is plugged in, or what follows the last.
    pub open spec fn plugging(self, i: int) -> StartView {
        self.to(
            if i < self.disks.len() {
                StartPhase::PlugDisk(i as usize)
            } else {
                StartPhase::Connect
            },
        )
    }

    /// The state in which the first volume on a disk from `i` on gets its disk, or what follows the
    /// last. The disks are plugged in in the order of the volumes in the request.
    pub open spec fn attaching(self, i: int) -> StartView {
        let n = next_on_disk(self.volumes, i);
        self.to(
            if n >= self.volumes.len() {
                StartPhase::ReadConfig
            } else if self.volumes[n].is_empty_dir {
                StartPhase::EmptyDirImage(n as usize)
            } else {
                StartPhase::PlugVolume(n as usize)
            },
        )
    }

    /// The state in which the next volume's files are read, or the agent is asked.
    pub open spec fn filling(self) -> StartView {
        let mounts = filled(self.volumes, request::bundle_path(self.id), self.mounts);
        StartView { mounts, ..self }.to(
            if mounts.len() < self.volumes.len() {
                StartPhase::ReadVolume
            } else if self.first {
                StartPhase::Run
            } else {
                StartPhase::Create
            },
        )
    }

    /// Whether `a` is what is asked for in the phase.
    pub open spec fn asks(self, a: StartAction) -> bool {
        match self.phase {
            StartPhase::ReadSpec => a matches StartAction::ReadText(f) && f@ == self.spec_file(),
            StartPhase::ProbeSources => a matches StartAction::ProbeSources(s) && text::strings(s@)
                == match json::parsed(self.spec) {
                Some(spec) => oci::sources(oci::mounts_of(spec)),
                None => Seq::empty(),
            },
            StartPhase::ReadMounts => a == StartAction::ReadMounts,
            StartPhase::CheckLayers => a matches StartAction::CheckFiles(f) && text::strings(f@)
                == self.layers,
            StartPhase::Image => a matches StartAction::MakeImage(image, rootfs, key) && image@
                == self.image() && rootfs@ == self.rootfs() && text::opt_string(key) == self.key,
            StartPhase::Claim => a == StartAction::Claim,
            StartPhase::Boot => a matches StartAction::Boot(d) && boot_disks(self.disks, d@),
            StartPhase::ConnectBooted => a == StartAction::Connect,
            StartPhase::MarkBooted => a == StartAction::MarkBooted,
            StartPhase::PlaceInCgroup => a == StartAction::PlaceInCgroup,
            StartPhase::MarkFailed(_) => a matches StartAction::MarkFailed(r) && r@ == self.reason,
            StartPhase::Wait => a == StartAction::Wait,
            StartPhase::PlugDisk(i) => a matches StartAction::Request(r) && vm::document_request(
                r,
                "/api/v1/vm.add-disk"@,
                vm::disk_document(self.disks[i as int].path, self.disks[i as int].id, true),
            ),
            StartPhase::Connect => a == StartAction::Connect,
            StartPhase::PlugVolume(i) => a matches StartAction::Request(r) && vm::document_request(
                r,
                "/api/v1/vm.add-disk"@,
                vm::disk_document(
                    self.volumes[i as int].source,
                    self.volume_disk(i as int),
                    self.volumes[i as int].readonly,
                ),
            ),
            StartPhase::EmptyDirImage(i) => a matches StartAction::CreateFile(f, n) && f@
                == self.empty_dir_image(i as int) && n == request::EMPTY_DIR_BYTES,
            StartPhase::FormatEmptyDir(i) => a matches StartAction::Format(args) && text::strings(
                args@,
            ) == request::format_arguments(self.empty_dir_image(i as int)),
            StartPhase::PlugEmptyDir(i) => a matches StartAction::Request(r)
                && vm::document_request(
                r,
                "/api/v1/vm.add-disk"@,
                vm::disk_document(
                    self.empty_dir_image(i as int),
                    request::empty_dir_id(self.volumes[i as int]),
                    false,
                ),
            ),
            StartPhase::ReadConfig => a matches StartAction::ReadBytes(f) && f@
                == self.spec_file(),
            StartPhase::ReadVolume => a matches StartAction::ReadVolume(p) && p@
                == self.volumes[self.mounts.len() as int].source,
            StartPhase::Run => a == StartAction::Run,
            StartPhase::Running => a == StartAction::Await,
            StartPhase::Create => a == StartAction::Create,
            StartPhase::Creating => a == StartAction::Await,
            StartPhase::Start => a matches StartAction::Start(id) && id@ == self.id,
            StartPhase::Done(pid) => a == StartAction::Done(pid),
            StartPhase::Failed(e) => a == StartAction::Fail(e),
        }
    }

    /// The state after a text was read.
    pub open spec fn after_text(self, data: Option<Seq<char>>) -> StartView {
        match self.phase {
            StartPhase::ReadSpec => match data {
                Some(t) => StartView { spec: t, ..self }.to(StartPhase::ProbeSources),
                None => self.to(StartPhase::Failed(StartError::ReadSpec)),
            },
            StartPhase::ReadMounts => match data {
                Some(t) => {
                    let layers = mountinfo::erofs_sources(t, self.rootfs());
                    StartView {
                        layers,
                        key: match mountinfo::first_lowerdir(text::lines(t), self.rootfs()) {
                            Some(d) => Some(hash::stable_hash(d)),
                            None => None,
                        },
                        ..self
                    }.to(
                        if layers.len() > 0 {
                            StartPhase::CheckLayers
                        } else {
                            StartPhase::Image
                        },
                    )
                },
                None => StartView { layers: Seq::empty(), key: None, ..self }.to(
                    StartPhase::Image,
                ),
            },
            _ => self,
        }
    }

    /// The state after it was seen which layers exist.
    pub open spec fn after_present(self, present: Seq<bool>) -> StartView {
        if self.phase == StartPhase::CheckLayers && present.len() == self.layers.len() {
            let layers = mountinfo::kept(self.layers, present);
            if layers.len() > 0 {
                StartView {
                    disks: layer_disks(pod::disk_id_spec(self.id), layers),
                    ..self
                }.to(StartPhase::Claim)
            } else {
                self.to(StartPhase::Image)
            }
        } else {
            self
        }
    }

    /// The state after something succeeded or failed.
    pub open spec fn after_outcome(self, ok: bool) -> StartView {
        match self.phase {
            StartPhase::Image => if ok {
                StartView {
                    disks: seq![
                        RootfsDiskView { path: self.image(), id: pod::disk_id_spec(self.id) },
                    ],
                    ..self
                }.to(StartPhase::Claim)
            } else {
                self.to(StartPhase::Failed(StartError::Image))
            },
            StartPhase::MarkBooted => self.to(StartPhase::PlaceInCgroup),
            StartPhase::PlaceInCgroup => self.to(StartPhase::Connect),
            StartPhase::MarkFailed(e) => self.to(StartPhase::Failed(e)),
            StartPhase::PlugDisk(i) => if ok {
                self.plugging(i + 1)
            } else {
                self.to(StartPhase::Failed(StartError::PlugDisk))
            },
            StartPhase::PlugVolume(i) => if ok {
                self.attaching(i + 1)
            } else {
                self.to(StartPhase::Failed(StartError::PlugVolume))
            },
            StartPhase::EmptyDirImage(i) => self.unless(
                ok,
                StartError::EmptyDirImage,
                StartPhase::FormatEmptyDir(i),
            ),
            StartPhase::FormatEmptyDir(i) => if ok {
                self.to(StartPhase::PlugEmptyDir(i))
            } else {
                self.attaching(i + 1)
            },
            StartPhase::PlugEmptyDir(i) => if ok {
                self.attaching(i + 1)
            } else {
                self.to(StartPhase::Failed(StartError::PlugEmptyDir))
            },
            StartPhase::Creating => self.unless(ok, StartError::Create, StartPhase::Start),
            _ => self,
        }
    }

    /// The state after something succeeded, or failed for a reason.
    pub open spec fn after_checked(self, problem: Option<Seq<char>>) -> StartView {
        match self.phase {
            StartPhase::Boot => match problem {
                None => self.to(StartPhase::ConnectBooted),
                Some(r) => StartView { reason: r, ..self }.to(
                    StartPhase::MarkFailed(StartError::Boot),
                ),
            },
            StartPhase::ConnectBooted => match problem {
                None => self.to(StartPhase::MarkBooted),
                Some(r) => StartView { reason: r, ..self }.to(
                    StartPhase::MarkFailed(StartError::AgentAfterBoot),
                ),
            },
            StartPhase::Wait => match problem {
                None => self.plugging(0),
                Some(r) => StartView { reason: r, ..self }.to(
                    StartPhase::Failed(StartError::BootFailedBefore),
                ),
            },
            StartPhase::Connect => match problem {
                None => self.attaching(0),
                Some(r) => StartView { reason: r, ..self }.to(
                    StartPhase::Failed(StartError::Agent),
                ),
            },
            _ => self,
        }
    }

    /// The state after an event. An event that is not waited for changes nothing.
    pub open spec fn after(self, event: StartEvent) -> StartView {
        match event {
            StartEvent::Text(data) => self.after_text(text::opt_string(data)),
            StartEvent::Blocks(blocks) => if self.phase == StartPhase::ProbeSources {
                match json::parsed(self.spec) {
                    Some(spec) => StartView {
                        volumes: oci::volumes(oci::mounts_of(spec), blocks@),
                        ..self
                    }.to(StartPhase::ReadMounts),
                    None => self.to(StartPhase::Failed(StartError::InvalidSpec)),
                }
            } else {
                self
            },
            StartEvent::Present(present) => self.after_present(present@),
            StartEvent::Outcome(ok) => self.after_outcome(ok),
            StartEvent::Role(role) => if self.phase == StartPhase::Claim {
                match role {
                    Ok(BootRole::First) => StartView { first: true, ..self }.to(StartPhase::Boot),
                    Ok(BootRole::Subsequent) => self.to(StartPhase::Wait),
                    Err(r) => StartView { reason: r@, ..self }.to(
                        StartPhase::Failed(StartError::BootFailedBefore),
                    ),
                }
            } else {
                self
            },
            StartEvent::Checked(problem) => self.after_checked(text::opt_string(problem)),
            StartEvent::Bytes(data) => if self.phase == StartPhase::ReadConfig {
                match data {
                    Some(b) => StartView { config: b@, ..self }.filling(),
                    None => self.to(StartPhase::Failed(StartError::ReadSpec)),
                }
            } else {
                self
            },
            StartEvent::Files(files) => if self.phase == StartPhase::ReadVolume {
                match files {
                    Some(f) => StartView {
                        mounts: self.mounts.push(
                            request::mount_for(
                                self.volumes[self.mounts.len() as int],
                                request::bundle_path(self.id),
                                f@,
                            ),
                        ),
                        ..self
                    }.filling(),
                    None => self.to(StartPhase::Failed(StartError::ReadVolume)),
                }
            } else {
                self
            },
            StartEvent::Started(pid) => match self.phase {
                StartPhase::Running => match pid {
                    Some(p) => self.to(StartPhase::Done(p)),
                    None => self.to(StartPhase::Failed(StartError::Start)),
                },
                StartPhase::Start => match pid {
                    Some(p) => self.to(StartPhase::Done(p)),
                    None => self.to(StartPhase::Failed(StartError::Start)),
                },
                _ => self,
            },
        }
    }

    /// The state after the request was taken.
    pub open spec fn submitted(self) -> StartView {
        StartView { config: Seq::empty(), mounts: Seq::empty(), ..self }.to(
            if self.phase == StartPhase::Run {
                StartPhase::Running
            } else {
                StartPhase::Creating
            },
        )
    }

    /// What holds in every phase.
    pub open spec fn wf(self) -> bool {
        &&& text::head_is_whole(self.id, 12)
        &&& forall|i: int|
            0 <= i < self.volumes.len() ==> (#[trigger] self.volumes[i]).volume_id
                == hash::volume_id(self.volumes[i].destination)
        &&& delivered(self.volumes, request::bundle_path(self.id), self.mounts)
        &&& match self.phase {
            StartPhase::ReadSpec | StartPhase::ProbeSources => self.mounts.len() == 0
                && !self.first,
            StartPhase::ReadMounts
            | StartPhase::CheckLayers
            | StartPhase::Image
            | StartPhase::Claim => !self.first,
            StartPhase::Boot
            | StartPhase::ConnectBooted
            | StartPhase::MarkBooted
            | StartPhase::PlaceInCgroup
            | StartPhase::MarkFailed(_) => self.first,
            StartPhase::Wait => !self.first,
            StartPhase::PlugDisk(i) => i < self.disks.len() && !self.first,
            StartPhase::PlugVolume(i) => i < self.volumes.len()
                && self.volumes[i as int].is_block && !self.volumes[i as int].is_empty_dir,
            StartPhase::EmptyDirImage(i)
            | StartPhase::FormatEmptyDir(i)
            | StartPhase::PlugEmptyDir(i) => i < self.volumes.len()
                && self.volumes[i as int].is_empty_dir,
            StartPhase::ReadVolume => self.mounts.len() < self.volumes.len(),
            StartPhase::Run => self.first && self.mounts.len() == self.volumes.len(),
            StartPhase::Create => !self.first && self.mounts.len() == self.volumes.len(),
            _ => true,
        }
    }
}

impl ContainerStart {
    /// Starts on a container of which the bundle is at `bundle`, in a VM with this state directory.
    pub fn new(id: &str, bundle: &str, state_dir: &str) -> (res: Self)
        requires
            text::head_is_whole(id@, 12),
        ensures
            res@.wf(),
            res@ == (StartView {
                id: id@,
                bundle: bundle@,
                state_dir: state_dir@,
                spec: Seq::empty(),
                volumes: Seq::empty(),
                layers: Seq::empty(),
                key: None,
                disks: Seq::empty(),
                first: false,
                reason: Seq::empty(),
                config: Seq::empty(),
                mounts: Seq::empty(),
                phase: StartPhase::ReadSpec,
            }),
    {
        let res: Self = ContainerStart {
            id: id.to_owned(),
            bundle: bundle.to_owned(),
            state_dir: state_dir.to_owned(),
            spec: String::new(),
            volumes: Vec::new(),
            layers: Vec::new(),
            key: None,
            disks: Vec::new(),
            first: false,
            reason: String::new(),
            config: Vec::new(),
            mounts: Vec::new(),
            phase: StartPhase::ReadSpec,
        };
        assert(res.spec@ =~= Seq::<char>::empty());
        assert(res.reason@ =~= Seq::<char>::empty());
        assert(res@.volumes =~= Seq::empty());
        assert(res@.layers =~= Seq::empty());
        assert(res@.disks =~= Seq::empty());
        assert(res@.mounts =~= Seq::empty());
        res
    }

    /// Whether this container boots the VM.
    pub fn boots_vm(&self) -> (res: bool)
        ensures
            res == self@.first,
    {
        self.first
    }

    /// Why the VM could not be booted or its agent not be reached.
    pub fn reason(&self) -> (res: &str)
        ensures
            res@ == self@.reason,
    {
        self.reason.as_str()
    }

    fn image(&self) -> (res: String)
        requires
            self@.wf(),
        ensures
            res@ == self@.image(),
    {
        let id: String = pod::disk_id(self.id.as_str());
        let name: String = text::join2(id.as_str(), ".erofs");
        paths::join(self.state_dir.as_str(), name.as_str())
    }

    fn empty_dir_id(&self, i: usize) -> (res: String)
        requires
            self@.wf(),
            i < self@.volumes.len(),
        ensures
            res@ == request::empty_dir_id(self@.volumes[i as int]),
    {
        proof {
            assert(self@.volumes[i as int] == self.volumes@[i as int]@);
            hash::lemma_volume_id_ascii(self@.volumes[i as int].destination, 8);
        }
        request::empty_dir_disk(&self.volumes[i])
    }

    fn empty_dir_image(&self, i: usize) -> (res: String)
        requires
            self@.wf(),
            i < self@.volumes.len(),
        ensures
            res@ == self@.empty_dir_image(i as int),
    {
        let id: String = self.empty_dir_id(i);
        let name: String = text::join2(id.as_str(), ".img");
        paths::join(self.state_dir.as_str(), name.as_str())
    }

    fn volume_disk(&self, i: usize) -> (res: String)
        requires
            self@.wf(),
        ensures
            res@ == self@.volume_disk(i as int),
    {
        let id: String = pod::disk_id(self.id.as_str());
        let number: String = text::decimal(i as u64);
        text::join3(id.as_str(), "-vol", number.as_str())
    }

    fn vm_disks(&self) -> (res: Vec<VmDisk>)
        ensures
            boot_disks(self@.disks, res@),
    {
        let mut out: Vec<VmDisk> = Vec::new();
        let ghost disks = self@.disks;
        let mut i: usize = 0;
        while i < self.disks.len()
            invariant
                i <= self.disks@.len(),
                disks == disk_views(self.disks@),
                out@.len() == i,
                forall|k: int|
                    0 <= k < i ==> {
                        &&& (#[trigger] out@[k]).path@ == disks[k].path
                        &&& out@[k].readonly
                        &&& text::opt_string(out@[k].id) == Some(disks[k].id)
                    },
            decreases self.disks@.len() - i,
        {
            let d: &RootfsDisk = &self.disks[i];
            assert(disks[i as int] == d@);
            out.push(VmDisk { path: d.path.clone(), readonly: true, id: Some(d.id.clone()) });
            i += 1;
        }
        out
    }

    /// What to do next.
    pub fn action(&self) -> (res: StartAction)
        requires
            self@.wf(),
        ensures
            self@.asks(res),
    {
        match self.phase {
            StartPhase::ReadSpec => StartAction::ReadText(
                paths::join(self.bundle.as_str(), "config.json"),
            ),
            StartPhase::ProbeSources => StartAction::ProbeSources(
                oci::volume_sources(self.spec.as_str()),
            ),
            StartPhase::ReadMounts => StartAction::ReadMounts,
            StartPhase::CheckLayers => {
                let files: Vec<String> = text::copied(&self.layers);
                StartAction::CheckFiles(files)
            },
            StartPhase::Image => StartAction::MakeImage(
                self.image(),
                paths::join(self.bundle.as_str(), "rootfs"),
                match &self.key {
                    Some(k) => Some(k.clone()),
                    None => None,
                },
            ),
            StartPhase::Claim => StartAction::Claim,
            StartPhase::Boot => StartAction::Boot(self.vm_disks()),
            StartPhase::ConnectBooted => StartAction::Connect,
            StartPhase::MarkBooted => StartAction::MarkBooted,
            StartPhase::PlaceInCgroup => StartAction::PlaceInCgroup,
            StartPhase::MarkFailed(_) => StartAction::MarkFailed(self.reason.clone()),
            StartPhase::Wait => StartAction::Wait,
            StartPhase::PlugDisk(i) => {
                let d: &RootfsDisk = &self.disks[i];
                assert(self@.disks[i as int] == d@);
                StartAction::Request(vm::add_disk_request(d.path.as_str(), d.id.as_str(), true))
            },
            StartPhase::Connect => StartAction::Connect,
            StartPhase::PlugVolume(i) => {
                let v: &VolumeSpec = &self.volumes[i];
                assert(self@.volumes[i as int] == v@);
                let id: String = self.volume_disk(i);
                StartAction::Request(
                    vm::add_disk_request(v.source.as_str(), id.as_str(), v.readonly),
                )
            },
            StartPhase::EmptyDirImage(i) => StartAction::CreateFile(
                self.empty_dir_image(i),
                request::EMPTY_DIR_BYTES,
            ),
            StartPhase::FormatEmptyDir(i) => {
                let image: String = self.empty_dir_image(i);
                StartAction::Format(request::format_command(image.as_str()))
            },
            StartPhase::PlugEmptyDir(i) => {
                let image: String = self.empty_dir_image(i);
                let id: String = self.empty_dir_id(i);
                StartAction::Request(vm::add_disk_request(image.as_str(), id.as_str(), false))
            },
            StartPhase::ReadConfig => StartAction::ReadBytes(
                paths::join(self.bundle.as_str(), "config.json"),
            ),
            StartPhase::ReadVolume => {
                let v: &VolumeSpec = &self.volumes[self.mounts.len()];
                assert(self@.volumes[self@.mounts.len() as int] == v@);
                StartAction::ReadVolume(v.source.clone())
            },
            StartPhase::Run => StartAction::Run,
            StartPhase::Running => StartAction::Await,
            StartPhase::Create => StartAction::Create,
            StartPhase::Creating => StartAction::Await,
            StartPhase::Start => StartAction::Start(self.id.clone()),
            StartPhase::Done(pid) => StartAction::Done(pid),
            StartPhase::Failed(e) => StartAction::Fail(e),
        }
    }

    /// Takes the request for the agent.
    pub fn take_request(&mut self) -> (res: CreateContainerRequest)
        requires
            old(self)@.wf(),
            old(self)@.phase == StartPhase::Run || old(self)@.phase == StartPhase::Create,
        ensures
            final(self)@.wf(),
            final(self)@ == old(self)@.submitted(),
            request::asks_for(
                res,
                old(self)@.id,
                old(self)@.config,
                old(self)@.first,
                old(self)@.disks.len(),
                old(self)@.mounts,
            ),
    {
        let mut mounts: Vec<VolumeMount> = Vec::new();
        std::mem::swap(&mut mounts, &mut self.mounts);
        let mut config: Vec<u8> = Vec::new();
        std::mem::swap(&mut config, &mut self.config);
        self.phase = match self.phase {
            StartPhase::Run => StartPhase::Running,
            _ => StartPhase::Creating,
        };
        assert(self@.mounts =~= Seq::empty());
        assert(self@ =~= old(self)@.submitted());
        request::container_request(
            self.id.as_str(),
            config,
            self.first,
            self.disks.len(),
            mounts,
        )
    }

    fn plug(&mut self, i: usize)
        requires
            old(self)@.wf(),
            !old(self)@.first,
            old(self)@.phase == StartPhase::Wait || old(self)@.phase matches StartPhase::PlugDisk(_),
        ensures
            final(self)@.wf(),
            final(self)@ == old(self)@.plugging(i as int),
    {
        self.phase = if i < self.disks.len() {
            StartPhase::PlugDisk(i)
        } else {
            StartPhase::Connect
        };
    }

    fn attach(&mut self, from: usize)
        requires
            old(self)@.wf(),
            from <= old(self)@.volumes.len(),
        ensures
            final(self)@.wf(),
            final(self)@ == old(self)@.attaching(from as int),
    {
        let mut n: usize = from;
        let ghost vols = self@.volumes;
        while n < self.volumes.len() && !request::reaches_as_disk(&self.volumes[n])
            invariant
                n <= self.volumes@.len(),
                vols == oci::volume_views(self.volumes@),
                next_on_disk(vols, from as int) == next_on_disk(vols, n as int),
            decreases self.volumes@.len() - n,
        {
            assert(vols[n as int] == self.volumes@[n as int]@);
            n += 1;
        }
        assert(n < vols.len() ==> vols[n as int] == self.volumes@[n as int]@);
        self.phase = if n >= self.volumes.len() {
            StartPhase::ReadConfig
        } else if self.volumes[n].is_empty_dir {
            StartPhase::EmptyDirImage(n)
        } else {
            StartPhase::PlugVolume(n)
        };
    }

    fn fill(&mut self)
        requires
            old(self)@.wf(),
        ensures
            final(self)@.wf(),
            final(self)@ == old(self)@.filling(),
    {
        let guest: String = request::bundle_for(self.id.as_str());
        let ghost start = self@;
        while self.mounts.len() < self.volumes.len() && request::reaches_as_disk(
            &self.volumes[self.mounts.len()],
        )
            invariant
                guest@ == request::bundle_path(self@.id),
                self@ == (StartView { mounts: self@.mounts, ..start }),
                start.wf(),
                delivered(self@.volumes, guest@, self@.mounts),
                filled(start.volumes, guest@, start.mounts) == filled(
                    start.volumes,
                    guest@,
                    self@.mounts,
                ),
            decreases self.volumes@.len() - self.mounts@.len(),
        {
            let ghost before = self@;
            let n: usize = self.mounts.len();
            let none: Vec<InlineFileInfo> = Vec::new();
            assert(none@ =~= Seq::empty());
            assert(before.volumes[n as int] == self.volumes@[n as int]@);
            let m: VolumeMount = request::volume_mount(&self.volumes[n], guest.as_str(), none);
            let ghost mv = m@;
            self.mounts.push(m);
            assert(self@.mounts =~= before.mounts.push(mv));
        }
        let ghost done = self@;
        assert(done.mounts.len() < done.volumes.len() ==> done.volumes[done.mounts.len() as int]
            == self.volumes@[done.mounts.len() as int]@);
        self.phase = if self.mounts.len() < self.volumes.len() {
            StartPhase::ReadVolume
        } else if self.first {
            StartPhase::Run
        } else {
            StartPhase::Create
        };
        assert(self@ =~= old(self)@.filling());
    }

    fn on_text(&mut self, data: Option<String>)
        requires
            old(self)@.wf(),
        ensures
            final(self)@.wf(),
            final(self)@ == old(self)@.after_text(text::opt_string(data)),
    {
        match self.phase {
            StartPhase::ReadSpec => match data {
                Some(t) => {
                    self.spec = t;
                    self.phase = StartPhase::ProbeSources;
                },
                None => {
                    self.phase = StartPhase::Failed(StartError::ReadSpec);
                },
            },
            StartPhase::ReadMounts => match data {
                Some(t) => {
                    let rootfs: String = paths::join(self.bundle.as_str(), "rootfs");
                    self.layers = mountinfo::find_erofs_layers(rootfs.as_str(), t.as_str());
                    self.key = mountinfo::erofs_cache_key_from_mountinfo(
                        rootfs.as_str(),
                        t.as_str(),
                    );
                    assert(text::strings(self.layers@).len() == self.layers@.len());
                    self.phase = if self.layers.len() > 0 {
                        StartPhase::CheckLayers
                    } else {
                        StartPhase::Image
                    };
                },
                None => {
                    self.layers = Vec::new();
                    self.key = None;
                    self.phase = StartPhase::Image;
                    assert(self@.layers =~= Seq::empty());
                },
            },
            _ => {},
        }
        assert(self@ =~= old(self)@.after_text(text::opt_string(data)));
    }

    fn on_blocks(&mut self, blocks: StringHashMap<String>)
        requires
            old(self)@.wf(),
            old(self)@.phase == StartPhase::ProbeSources,
        ensures
            final(self)@.wf(),
            final(self)@ == old(self)@.after(StartEvent::Blocks(blocks)),
    {
        match oci::extract_volumes(self.spec.as_str(), &blocks) {
            Ok(v) => {
                proof {
                    oci::law_volumes_named_by_destination(
                        oci::mounts_of(json::parsed(self@.spec)->Some_0),
                        blocks@,
                    );
                }
                self.volumes = v;
                self.phase = StartPhase::ReadMounts;
            },
            Err(_) => {
                self.phase = StartPhase::Failed(StartError::InvalidSpec);
            },
        }
    }

    fn on_present(&mut self, present: &Vec<bool>)
        requires
            old(self)@.wf(),
        ensures
            final(self)@.wf(),
            final(self)@ == old(self)@.after_present(present@),
    {
        if let StartPhase::CheckLayers = self.phase {
            assert(self@.layers.len() == self.layers@.len());
            if present.len() == self.layers.len() {
                let layers: Vec<String> = mountinfo::existing(&self.layers, present);
                assert(text::strings(layers@).len() == layers@.len());
                if layers.len() > 0 {
                    let id: String = pod::disk_id(self.id.as_str());
                    self.disks = disks_of_layers(id.as_str(), &layers);
                    self.phase = StartPhase::Claim;
                } else {
                    self.phase = StartPhase::Image;
                }
            }
        }
    }

    fn on_outcome(&mut self, ok: bool)
        requires
            old(self)@.wf(),
        ensures
            final(self)@.wf(),
            final(self)@ == old(self)@.after_outcome(ok),
    {
        let n: usize = self.volumes.len();
        let d: usize = self.disks.len();
        match self.phase {
            StartPhase::Image => if ok {
                let disk: RootfsDisk = RootfsDisk {
                    path: self.image(),
                    id: pod::disk_id(self.id.as_str()),
                };
                let ghost dv = disk@;
                let mut disks: Vec<RootfsDisk> = Vec::new();
                disks.push(disk);
                self.disks = disks;
                assert(self@.disks =~= seq![dv]);
                self.phase = StartPhase::Claim;
            } else {
                self.phase = StartPhase::Failed(StartError::Image);
            },
            StartPhase::MarkBooted => {
                self.phase = StartPhase::PlaceInCgroup;
            },
            StartPhase::PlaceInCgroup => {
                self.phase = StartPhase::Connect;
            },
            StartPhase::MarkFailed(e) => {
                self.phase = StartPhase::Failed(e);
            },
            StartPhase::PlugDisk(i) => if ok {
                assert(i < d);
                self.plug(i + 1);
            } else {
                self.phase = StartPhase::Failed(StartError::PlugDisk);
            },
            StartPhase::PlugVolume(i) => if ok {
                assert(i < n);
                self.attach(i + 1);
            } else {
                self.phase = StartPhase::Failed(StartError::PlugVolume);
            },
            StartPhase::EmptyDirImage(i) => {
                self.phase = if ok {
                    StartPhase::FormatEmptyDir(i)
                } else {
                    StartPhase::Failed(StartError::EmptyDirImage)
                };
            },
            StartPhase::FormatEmptyDir(i) => if ok {
                self.phase = StartPhase::PlugEmptyDir(i);
            } else {
                assert(i < n);
                self.attach(i + 1);
            },
            StartPhase::PlugEmptyDir(i) => if ok {
                assert(i < n);
                self.attach(i + 1);
            } else {
                self.phase = StartPhase::Failed(StartError::PlugEmptyDir);
            },
            StartPhase::Creating => {
                self.phase = if ok {
                    StartPhase::Start
                } else {
                    StartPhase::Failed(StartError::Create)
                };
            },
            _ => {},
        }
    }

    fn on_checked(&mut self, problem: Option<String>)
        requires
            old(self)@.wf(),
        ensures
            final(self)@.wf(),
            final(self)@ == old(self)@.after_checked(text::opt_string(problem)),
    {
        match self.phase {
            StartPhase::Boot => match problem {
                None => {
                    self.phase = StartPhase::ConnectBooted;
                },
                Some(r) => {
                    self.reason = r;
                    self.phase = StartPhase::MarkFailed(StartError::Boot);
                },
            },
            StartPhase::ConnectBooted => match problem {
                None => {
                    self.phase = StartPhase::MarkBooted;
                },
                Some(r) => {
                    self.reason = r;
                    self.phase = StartPhase::MarkFailed(StartError::AgentAfterBoot);
                },
            },
            StartPhase::Wait => match problem {
                None => self.plug(0),
                Some(r) => {
                    self.reason = r;
                    self.phase = StartPhase::Failed(StartError::BootFailedBefore);
                },
            },
            StartPhase::Connect => match problem {
                None => self.attach(0),
                Some(r) => {
                    self.reason = r;
                    self.phase = StartPhase::Failed(StartError::Agent);
                },
            },
            _ => {},
        }
    }

    fn on_role(&mut self, role: Result<BootRole, String>)
        requires
            old(self)@.wf(),
            old(self)@.phase == StartPhase::Claim,
        ensures
            final(self)@.wf(),
            final(self)@ == old(self)@.after(StartEvent::Role(role)),
    {
        match role {
            Ok(BootRole::First) => {
                self.first = true;
                self.phase = StartPhase::Boot;
            },
            Ok(BootRole::Subsequent) => {
                self.phase = StartPhase::Wait;
            },
            Err(r) => {
                self.reason = r;
                self.phase = StartPhase::Failed(StartError::BootFailedBefore);
            },
        }
    }

    fn on_files(&mut self, files: Vec<InlineFileInfo>)
        requires
            old(self)@.wf(),
            old(self)@.phase == StartPhase::ReadVolume,
        ensures
            final(self)@.wf(),
            final(self)@ == old(self)@.after(StartEvent::Files(Some(files))),
    {
        let guest: String = request::bundle_for(self.id.as_str());
        let n: usize = self.mounts.len();
        let ghost before = self@;
        assert(before.volumes[n as int] == self.volumes@[n as int]@);
        let m: VolumeMount = request::volume_mount(&self.volumes[n], guest.as_str(), files);
        let ghost mv = m@;
        self.mounts.push(m);
        self.phase = StartPhase::ReadConfig;
        assert(self@.mounts =~= before.mounts.push(mv));
        self.fill();
    }

    /// Takes in what came of the last action.
    pub fn step(&mut self, event: StartEvent)
        requires
            old(self)@.wf(),
        ensures
            final(self)@.wf(),
            final(self)@ == old(self)@.after(event),
    {
        match event {
            StartEvent::Text(data) => self.on_text(data),
            StartEvent::Blocks(blocks) => {
                if let StartPhase::ProbeSources = self.phase {
                    self.on_blocks(blocks);
                }
            },
            StartEvent::Present(present) => self.on_present(&present),
            StartEvent::Outcome(ok) => self.on_outcome(ok),
            StartEvent::Role(role) => {
                if let StartPhase::Claim = self.phase {
                    self.on_role(role);
                }
            },
            StartEvent::Checked(problem) => self.on_checked(problem),
            StartEvent::Bytes(data) => {
                if let StartPhase::ReadConfig = self.phase {
                    match data {
                        Some(b) => {
                            self.config = b;
                            self.fill();
                        },
                        None => {
                            self.phase = StartPhase::Failed(StartError::ReadSpec);
                        },
                    }
                }
            },
            StartEvent::Files(files) => {
                if let StartPhase::ReadVolume = self.phase {
                    match files {
                        Some(f) => self.on_files(f),
                        None => {
                            self.phase = StartPhase::Failed(StartError::ReadVolume);
                        },
                    }
                }
            },
            StartEvent::Started(pid) => {
                let waiting: bool = match self.phase {
                    StartPhase::Running => true,
                    StartPhase::Start => true,
                    _ => false,
                };
                if waiting {
                    self.phase = match pid {
                        Some(p) => StartPhase::Done(p),
                        None => StartPhase::Failed(StartError::Start),
                    };
                }
            },
        }
    }
}

/// A boot that fails is never kept quiet: whether the VM did not boot or its agent did not answer,
/// the reason is recorded for the containers that wait before this one fails.
pub proof fn law_boot_failure_is_recorded(s: StartView, reason: String, a: StartAction)
    requires
        s.phase == StartPhase::Boot || s.phase == StartPhase::ConnectBooted,
        s.after(StartEvent::Checked(Some(reason))).asks(a),
    ensures
        a matches StartAction::MarkFailed(r) && r@ == reason@,
        s.after(StartEvent::Checked(Some(reason))).after_outcome(true).phase
            is Failed,
{
}

/// A container that does not boot the VM plugs in every disk of its rootfs, one after the other,
/// before it talks to the agent.
pub proof fn law_later_container_plugs_every_disk(s: StartView, n: nat)
    requires
        s.phase == StartPhase::Wait,
        n <= s.disks.len() <= usize::MAX,
    ensures
        after_plugs(s, n) == s.plugging(n as int),
    decreases n,
{
    if n > 0 {
        law_later_container_plugs_every_disk(s, (n - 1) as nat);
    }
}

/// The state after the VM turned out to be booted, and then `n` disks were plugged in.
pub open spec fn after_plugs(s: StartView, n: nat) -> StartView
    decreases n,
{
    if n == 0 {
        s.after_checked(None)
    } else {
        after_plugs(s, (n - 1) as nat).after_outcome(true)
    }
}

/// Every volume on a disk gets its disk, in the order of the volumes: none is passed over on the way
/// to the next, and after the last the request is made.
pub proof fn law_disks_follow_the_volumes(s: StartView, i: int)
    requires
        0 <= i <= s.volumes.len() <= usize::MAX,
    ensures
        ({
            let n = next_on_disk(s.volumes, i);
            &&& i <= n <= s.volumes.len()
            &&& forall|k: int| i <= k < n ==> !request::on_disk(#[trigger] s.volumes[k])
            &&& match s.attaching(i).phase {
                StartPhase::PlugVolume(k) => k == n && s.volumes[n].is_block
                    && s.attaching(i).after_outcome(true) == s.attaching(n + 1),
                StartPhase::EmptyDirImage(k) => k == n && s.volumes[n].is_empty_dir
                    && s.attaching(i).after_outcome(true).after_outcome(true).after_outcome(true)
                    == s.attaching(n + 1),
                p => p == StartPhase::ReadConfig && n == s.volumes.len(),
            }
        }),
    decreases s.volumes.len() - i,
{
    if i < s.volumes.len() && !request::on_disk(s.volumes[i]) {
        law_disks_follow_the_volumes(s, i + 1);
    }
}

/// What the agent is asked for is whole: every volume of the specification is in the request, in
/// order, and the rootfs counts as attached exactly where this container booted the VM with it.
pub proof fn law_request_is_whole(s: StartView, r: CreateContainerRequest)
    requires
        s.wf(),
        s.phase == StartPhase::Run || s.phase == StartPhase::Create,
        request::asks_for(r, s.id, s.config, s.first, s.disks.len(), s.mounts),
    ensures
        r.volumes@.len() == s.volumes.len(),
        forall|i: int|
            0 <= i < s.volumes.len() ==> (#[trigger] r.volumes@[i]).destination@
                == s.volumes[i].destination && r.volumes@[i].readonly == s.volumes[i].readonly,
        r.rootfs_preattached == (s.phase == StartPhase::Run),
{
    assert forall|i: int| 0 <= i < s.volumes.len() implies (#[trigger] r.volumes@[i]).destination@
        == s.volumes[i].destination && r.volumes@[i].readonly == s.volumes[i].readonly by {
        assert(request::mount_views(r.volumes@)[i] == s.mounts[i]);
    }
}

/// Whether a request adds the disk at a path under a name, read-only or not.
pub open spec fn adds_disk(
    r: ApiRequest,
    path: Seq<char>,
    id: Seq<char>,
    readonly: bool,
) -> bool {
    &&& r.path@ == "/api/v1/vm.add-disk"@
    &&& exists|doc: JsonView|
        text::opt_string(r.body) == Some(#[trigger] json::compact(doc)) && doc.field("path"@)
            == Some(JsonView::Text(path)) && doc.field("id"@) == Some(JsonView::Text(id))
            && doc.field("readonly"@) == Some(JsonView::Bool(readonly))
}

/// The disks of a rootfs are plugged in read-only; a block volume is plugged in from its source and
/// is read-only exactly where the volume is; the disk of an emptyDir is writable, and is the image
/// that was created and formatted for it.
pub proof fn law_disks_plugged_in(s: StartView, i: usize, a: StartAction)
    requires
        s.asks(a),
    ensures
        s.phase == StartPhase::PlugDisk(i) ==> (a matches StartAction::Request(r) && adds_disk(
            r,
            s.disks[i as int].path,
            s.disks[i as int].id,
            true,
        )),
        s.phase == StartPhase::PlugVolume(i) ==> (a matches StartAction::Request(r) && adds_disk(
            r,
            s.volumes[i as int].source,
            s.volume_disk(i as int),
            s.volumes[i as int].readonly,
        )),
        s.phase == StartPhase::PlugEmptyDir(i) ==> (a matches StartAction::Request(r) && adds_disk(
            r,
            s.empty_dir_image(i as int),
            request::empty_dir_id(s.volumes[i as int]),
            false,
        )),
        s.phase == StartPhase::EmptyDirImage(i) ==> (a matches StartAction::CreateFile(f, n) && f@
            == s.empty_dir_image(i as int) && n == 16 * 1024 * 1024),
        s.phase == StartPhase::FormatEmptyDir(i) ==> (a matches StartAction::Format(args)
            && text::strings(args@).len() > 0 && text::strings(args@).last() == s.empty_dir_image(
            i as int,
        )),
        s.phase == StartPhase::Boot ==> (a matches StartAction::Boot(d) && d@.len() == s.disks.len()
            && forall|k: int|
            0 <= k < d@.len() ==> (#[trigger] d@[k]).readonly && d@[k].path@ == s.disks[k].path),
{
    match s.phase {
        StartPhase::PlugDisk(k) => {
            vm::law_added_disk(s.disks[k as int].path, s.disks[k as int].id, true);
            let doc = vm::disk_document(s.disks[k as int].path, s.disks[k as int].id, true);
            assert(a is Request && text::opt_string(a->Request_0.body) == Some(json::compact(doc)));
        },
        StartPhase::PlugVolume(k) => {
            let v = s.volumes[k as int];
            vm::law_added_disk(v.source, s.volume_disk(k as int), v.readonly);
            let doc = vm::disk_document(v.source, s.volume_disk(k as int), v.readonly);
            assert(a is Request && text::opt_string(a->Request_0.body) == Some(json::compact(doc)));
        },
        StartPhase::PlugEmptyDir(k) => {
            let id = request::empty_dir_id(s.volumes[k as int]);
            vm::law_added_disk(s.empty_dir_image(k as int), id, false);
            let doc = vm::disk_document(s.empty_dir_image(k as int), id, false);
            assert(a is Request && text::opt_string(a->Request_0.body) == Some(json::compact(doc)));
        },
        StartPhase::FormatEmptyDir(k) => {
            request::law_empty_dir(s.volumes[k as int], s.empty_dir_image(k as int));
        },
        _ => {},
    }
}

/// The layers that are found to exist are the disks of the rootfs, in order and under names of their
/// own; where none exists, an image of the rootfs is made and is the only disk.
pub proof fn law_rootfs_disks(s: StartView, present: Seq<bool>) -> (from: Seq<int>)
    requires
        s.phase == StartPhase::CheckLayers,
        present.len() == s.layers.len(),
    ensures
        (exists|k: int| 0 <= k < present.len() && #[trigger] present[k]) ==> {
            let t = s.after_present(present);
            &&& t.phase == StartPhase::Claim
            &&& t.disks.len() == from.len()
            &&& forall|i: int|
                0 <= i < from.len() ==> 0 <= #[trigger] from[i] < present.len() && present[from[i]]
                    && t.disks[i].path == s.layers[from[i]] && t.disks[i].id == pod::disk_id_spec(
                    s.id,
                ) + "-layer"@ + text::dec(i as nat)
            &&& forall|i: int, j: int|
                0 <= i < j < from.len() ==> #[trigger] from[i] < #[trigger] from[j]
            &&& forall|k: int|
                0 <= k < present.len() && #[trigger] present[k] ==> exists|i: int|
                    0 <= i < from.len() && #[trigger] from[i] == k
        },
        (forall|k: int| 0 <= k < present.len() ==> !#[trigger] present[k]) ==> s.after_present(
            present,
        ).phase == StartPhase::Image,
{
    let from = mountinfo::law_existing_are_kept(s.layers, present);
    if exists|k: int| 0 <= k < present.len() && #[trigger] present[k] {
        let k = choose|k: int| 0 <= k < present.len() && #[trigger] present[k];
        let i = choose|i: int| 0 <= i < from.len() && #[trigger] from[i] == k;
        assert(from.len() > 0);
    } else if from.len() > 0 {
        assert(present[from[0]]);
    }
    from
}

/// An image that was made is the only disk of the rootfs, under the container's disk name; one that
/// could not be made fails the start.
pub proof fn law_image_is_only_disk(s: StartView)
    requires
        s.phase == StartPhase::Image,
    ensures
        s.after_outcome(true).phase == StartPhase::Claim,
        s.after_outcome(true).disks.len() == 1,
        s.after_outcome(true).disks[0].path == s.image(),
        s.after_outcome(true).disks[0].id == pod::disk_id_spec(s.id),
        s.after_outcome(false).phase == StartPhase::Failed(StartError::Image),
{
}

/// The first container of a pod boots the VM with its disks and plugs none in; a later one waits for
/// the VM and then plugs its disks in. A boot that failed before fails every container, for the
/// reason it failed for.
pub proof fn law_first_container_boots(s: StartView, reason: String, why: String)
    requires
        s.phase == StartPhase::Claim,
        0 < s.disks.len() <= usize::MAX,
    ensures
        s.after(StartEvent::Role(Ok(BootRole::First))).phase == StartPhase::Boot,
        s.after(StartEvent::Role(Ok(BootRole::First))).first,
        s.after(StartEvent::Role(Ok(BootRole::First))).after_checked(None).after_checked(
            None,
        ).after_outcome(true).after_outcome(true).phase == StartPhase::Connect,
        s.after(StartEvent::Role(Ok(BootRole::Subsequent))).phase == StartPhase::Wait,
        s.after(StartEvent::Role(Ok(BootRole::Subsequent))).first == s.first,
        s.after(StartEvent::Role(Ok(BootRole::Subsequent))).after_checked(None).phase
            == StartPhase::PlugDisk(0),
        s.after(StartEvent::Role(Err(reason))).phase == StartPhase::Failed(
            StartError::BootFailedBefore,
        ),
        s.after(StartEvent::Role(Err(reason))).reason == reason@,
        s.after(StartEvent::Role(Ok(BootRole::Subsequent))).after_checked(Some(why@)).phase
            == StartPhase::Failed(StartError::BootFailedBefore),
        s.after(StartEvent::Role(Ok(BootRole::Subsequent))).after_checked(Some(why@)).reason
            == why@,
{
}

/// A step that fails fails the start with what it was about. Only two may fail: placing the
/// hypervisor in its cgroup, and formatting the image of an emptyDir, which is then not plugged in.
pub proof fn law_failed_steps(s: StartView, why: Seq<char>, i: usize)
    ensures
        s.phase is PlugDisk ==> s.after_outcome(false).phase == StartPhase::Failed(
            StartError::PlugDisk,
        ),
        s.phase is PlugVolume ==> s.after_outcome(false).phase == StartPhase::Failed(
            StartError::PlugVolume,
        ),
        s.phase is EmptyDirImage ==> s.after_outcome(false).phase == StartPhase::Failed(
            StartError::EmptyDirImage,
        ),
        s.phase is PlugEmptyDir ==> s.after_outcome(false).phase == StartPhase::Failed(
            StartError::PlugEmptyDir,
        ),
        s.phase == StartPhase::Creating ==> s.after_outcome(false).phase == StartPhase::Failed(
            StartError::Create,
        ) && s.after_outcome(true).phase == StartPhase::Start,
        s.phase == StartPhase::Connect ==> s.after_checked(Some(why)).phase == StartPhase::Failed(
            StartError::Agent,
        ) && s.after_checked(Some(why)).reason == why,
        s.phase == StartPhase::PlaceInCgroup ==> s.after_outcome(false).phase
            == StartPhase::Connect,
        s.phase == StartPhase::FormatEmptyDir(i) ==> s.after_outcome(false) == s.attaching(i + 1)
            && s.after_outcome(true).phase == StartPhase::PlugEmptyDir(i),
        s.phase == StartPhase::EmptyDirImage(i) ==> s.after_outcome(true).phase
            == StartPhase::FormatEmptyDir(i),
        s.phase == StartPhase::ReadSpec ==> s.after(StartEvent::Text(None)).phase
            == StartPhase::Failed(StartError::ReadSpec),
        s.phase == StartPhase::ReadConfig ==> s.after(StartEvent::Bytes(None)).phase
            == StartPhase::Failed(StartError::ReadSpec),
        s.phase == StartPhase::ReadVolume ==> s.after(StartEvent::Files(None)).phase
            == StartPhase::Failed(StartError::ReadVolume),
        s.phase == StartPhase::Start || s.phase == StartPhase::Running ==> s.after(
            StartEvent::Started(None),
        ).phase == StartPhase::Failed(StartError::Start),
{
}

/// A container runs as the process that the agent names, and only once the agent has named it.
pub proof fn law_running_process(s: StartView, event: StartEvent, pid: u32)
    requires
        s.after(event).phase == StartPhase::Done(pid),
        !(s.phase is Done),
    ensures
        event == StartEvent::Started(Some(pid)),
        s.phase == StartPhase::Start || s.phase == StartPhase::Running,
{
}

/// What a start reads: the specification in the bundle, the volumes that the specification names,
/// and, of the table of mounts, the key and the layers of its own rootfs.
pub proof fn law_what_is_read(s: StartView, t: Seq<char>, blocks: StringHashMap<String>)
    ensures
        s.phase == StartPhase::ReadMounts ==> {
            let r = s.after_text(Some(t));
            &&& r.key == mountinfo::cache_key(t, s.rootfs())
            &&& r.layers == mountinfo::erofs_sources(t, s.rootfs())
            &&& r.phase == if r.layers.len() == 0 {
                StartPhase::Image
            } else {
                StartPhase::CheckLayers
            }
        },
        s.phase == StartPhase::ReadMounts ==> s.after_text(None).phase == StartPhase::Image
            && s.after_text(None).key is None,
        s.phase == StartPhase::ReadSpec ==> s.after_text(Some(t)).spec == t && s.after_text(
            Some(t),
        ).phase == StartPhase::ProbeSources,
        s.phase == StartPhase::ProbeSources ==> match json::parsed(s.spec) {
            Some(spec) => s.after(StartEvent::Blocks(blocks)).volumes == oci::volumes(
                oci::mounts_of(spec),
                blocks@,
            ),
            None => s.after(StartEvent::Blocks(blocks)).phase == StartPhase::Failed(
                StartError::InvalidSpec,
            ),
        },
        s.bundle.len() > 0 && s.bundle.last() != '/' ==> s.rootfs() == s.bundle + "/rootfs"@
            && s.spec_file() == s.bundle + "/config.json"@,
{
    reveal_strlit("rootfs");
    reveal_strlit("/rootfs");
    reveal_strlit("config.json");
    reveal_strlit("/config.json");
    assert("rootfs"@[0] == 'r' && "config.json"@[0] == 'c');
    assert("/rootfs"@ =~= seq!['/'] + "rootfs"@);
    assert("/config.json"@ =~= seq!['/'] + "config.json"@);
    assert(s.bundle.push('/') + "rootfs"@ =~= s.bundle + (seq!['/'] + "rootfs"@));
    assert(s.bundle.push('/') + "config.json"@ =~= s.bundle + (seq!['/'] + "config.json"@));
}

/// The files of every volume that does not reach the guest as a disk are read from its source, and
/// what is read goes with the request for that volume. Once all volumes are there, the first
/// container asks for its creation and start at once, and a later one for its creation.
pub proof fn law_files_are_read(s: StartView, files: Vec<InlineFileInfo>)
    requires
        s.wf(),
        s.phase == StartPhase::ReadVolume,
    ensures
        ({
            let n = s.mounts.len() as int;
            let t = s.after(StartEvent::Files(Some(files)));
            &&& t.mounts.len() > n
            &&& t.mounts[n].destination == s.volumes[n].destination
            &&& t.mounts[n].readonly == s.volumes[n].readonly
            &&& !s.volumes[n].is_block && !s.volumes[n].is_empty_dir ==> t.mounts[n].files
                == files@
            &&& t.mounts.take(n) == s.mounts
            &&& t.phase == if t.mounts.len() < s.volumes.len() {
                StartPhase::ReadVolume
            } else if s.first {
                StartPhase::Run
            } else {
                StartPhase::Create
            }
        }),
{
    let n = s.mounts.len() as int;
    let bundle = request::bundle_path(s.id);
    let m = s.mounts.push(request::mount_for(s.volumes[n], bundle, files@));
    lemma_filled_extends(s.volumes, bundle, m);
    let f = filled(s.volumes, bundle, m);
    assert(f[n] == m[n]) by {
        assert(f.take(m.len() as int)[n] == m[n]);
    }
    assert(f.take(n) =~= s.mounts) by {
        assert forall|i: int| 0 <= i < n implies f[i] == s.mounts[i] by {
            assert(f.take(m.len() as int)[i] == m[i]);
        }
    }
}

proof fn lemma_filled_extends(
    volumes: Seq<VolumeSpecView>,
    bundle: Seq<char>,
    m: Seq<VolumeMountView>,
)
    requires
        m.len() <= volumes.len(),
    ensures
        m.len() <= filled(volumes, bundle, m).len() <= volumes.len(),
        filled(volumes, bundle, m).take(m.len() as int) == m,
        filled(volumes, bundle, m).len() < volumes.len() ==> !request::on_disk(
            volumes[filled(volumes, bundle, m).len() as int],
        ),
    decreases volumes.len() - m.len(),
{
    if m.len() < volumes.len() && request::on_disk(volumes[m.len() as int]) {
        let x = request::mount_for(volumes[m.len() as int], bundle, Seq::empty());
        lemma_filled_extends(volumes, bundle, m.push(x));
        let f = filled(volumes, bundle, m);
        assert(f.take(m.len() as int) =~= m) by {
            assert forall|i: int| 0 <= i < m.len() implies f[i] == m[i] by {
                assert(f.take((m.len() + 1) as int)[i] == m.push(x)[i]);
            }
        }
    } else {
        assert(m.take(m.len() as int) =~= m);
    }
}

/// The specification that goes with the request is the file of the bundle as it was read; once the
/// request is taken nothing of it is kept.
pub proof fn law_config_is_delivered(s: StartView, data: Vec<u8>)
    requires
        s.wf(),
    ensures
        s.phase == StartPhase::ReadConfig ==> s.after(StartEvent::Bytes(Some(data))).config == data@,
        s.phase == StartPhase::Run ==> s.submitted().phase == StartPhase::Running,
        s.phase == StartPhase::Create ==> s.submitted().phase == StartPhase::Creating,
        s.submitted().config.len() == 0 && s.submitted().mounts.len() == 0,
        s.submitted().first == s.first && s.submitted().id == s.id,
{
}

/// The disk of a block volume is named after the container and the number of the volume, and the
/// image of an emptyDir stands in the state directory of the VM.
pub proof fn law_names_of_disks(s: StartView, i: int)
    ensures
        s.volume_disk(i) == pod::disk_id_spec(s.id) + "-vol"@ + text::dec(i as nat),
        s.state_dir.len() > 0 && s.state_dir.last() != '/' ==> s.empty_dir_image(i) == s.state_dir + seq!['/'] + request::empty_dir_id(
            s.volumes[i],
        ) + ".img"@,
        s.state_dir.len() > 0 && s.state_dir.last() != '/' ==> s.image() == s.state_dir + seq!['/']
            + pod::disk_id_spec(s.id) + ".erofs"@,
{
    reveal_strlit("ctr-");
    reveal_strlit("edir-");
    assert("ctr-"@[0] == 'c' && "edir-"@[0] == 'e');
    let e = request::empty_dir_id(s.volumes[i]);
    let d = pod::disk_id_spec(s.id);
    assert(d[0] == 'c' && e[0] == 'e');
    assert((d + ".erofs"@)[0] == 'c' && (e + ".img"@)[0] == 'e');
    assert(s.state_dir.push('/') + (e + ".img"@) =~= s.state_dir + seq!['/'] + e + ".img"@);
    assert(s.state_dir.push('/') + (d + ".erofs"@) =~= s.state_dir + seq!['/'] + d + ".erofs"@);
}

/// In each phase of its start a container asks for what the phase is named for.
pub proof fn law_start_asks(s: StartView, a: StartAction)
    requires
        s.asks(a),
    ensures
        s.phase == StartPhase::ReadSpec ==> (a matches StartAction::ReadText(f) && f@
            == paths::joined(s.bundle, "config.json"@)),
        s.phase == StartPhase::ReadConfig ==> (a matches StartAction::ReadBytes(f) && f@
            == paths::joined(s.bundle, "config.json"@)),
        s.phase == StartPhase::ProbeSources ==> (a matches StartAction::ProbeSources(v) && (
        json::parsed(s.spec) matches Some(spec) ==> text::strings(v@) == oci::sources(
            oci::mounts_of(spec),
        ))),
        s.phase == StartPhase::ReadMounts <==> a == StartAction::ReadMounts,
        s.phase == StartPhase::CheckLayers ==> (a matches StartAction::CheckFiles(f)
            && text::strings(f@) == s.layers),
        s.phase == StartPhase::Image ==> (a matches StartAction::MakeImage(image, rootfs, key)
            && image@ == s.image() && rootfs@ == s.rootfs() && text::opt_string(key) == s.key),
        s.phase == StartPhase::Claim <==> a == StartAction::Claim,
        s.phase == StartPhase::ConnectBooted || s.phase == StartPhase::Connect <==> a
            == StartAction::Connect,
        s.phase == StartPhase::MarkBooted <==> a == StartAction::MarkBooted,
        s.phase == StartPhase::PlaceInCgroup <==> a == StartAction::PlaceInCgroup,
        s.phase == StartPhase::Wait <==> a == StartAction::Wait,
        s.phase is MarkFailed ==> (a matches StartAction::MarkFailed(r) && r@ == s.reason),
        s.phase == StartPhase::ReadVolume ==> (a matches StartAction::ReadVolume(p) && p@
            == s.volumes[s.mounts.len() as int].source),
        s.phase == StartPhase::Run <==> a == StartAction::Run,
        s.phase == StartPhase::Create <==> a == StartAction::Create,
        s.phase == StartPhase::Running || s.phase == StartPhase::Creating <==> a
            == StartAction::Await,
        s.phase == StartPhase::Start ==> (a matches StartAction::Start(id) && id@ == s.id),
        s.phase matches StartPhase::Done(pid) ==> a == StartAction::Done(pid),
        s.phase matches StartPhase::Failed(e) ==> a == StartAction::Fail(e),
{
}

/// The disks of a later container are plugged in one after the other; after the last one it connects
/// to the agent.
pub proof fn law_disks_in_turn(s: StartView, i: usize)
    requires
        s.phase == StartPhase::PlugDisk(i),
        i < s.disks.len() <= usize::MAX,
    ensures
        i + 1 < s.disks.len() ==> s.after_outcome(true).phase == StartPhase::PlugDisk(
            (i + 1) as usize,
        ),
        i + 1 == s.disks.len() ==> s.after_outcome(true).phase == StartPhase::Connect,
        s.after_outcome(true).disks == s.disks && s.after_outcome(true).volumes == s.volumes,
{
}

} // verus!
