//! Creating a container in the guest: its rootfs, its specification and its volumes are put
//! together in a bundle.
//!
//! [`CreateRun`] asks for one thing at a time and is told what came of it.

use crate::container;
use crate::container::{InlineFileInfo, VolumeInfo};
use crate::oci::VolumeSpecView;
use crate::paths;
use crate::request;
use crate::text;
use vstd::prelude::*;

verus! {

/// What is written for the volumes of a container.
#[derive(Debug)]
pub enum VolumeItem {
    /// The directory of a volume.
    Dir(String),
    /// A file of a volume: where it goes, which file of which volume it is, and its permissions,
    /// none where they are left alone.
    File { path: String, volume: usize, file: usize, mode: Option<u32> },
}

/// What is written for the volumes of a container.
pub enum VolumeItemView {
    Dir(Seq<char>),
    File { path: Seq<char>, volume: int, file: int, mode: Option<u32> },
}

impl View for VolumeItem {
    type V = VolumeItemView;

    open spec fn view(&self) -> VolumeItemView {
        match *self {
            VolumeItem::Dir(d) => VolumeItemView::Dir(d@),
            VolumeItem::File { path, volume, file, mode } => VolumeItemView::File {
                path: path@,
                volume: volume as int,
                file: file as int,
                mode,
            },
        }
    }
}

/// What a list of items is.
pub open spec fn item_views(v: Seq<VolumeItem>) -> Seq<VolumeItemView> {
    Seq::new(v.len(), |i: int| v[i]@)
}

/// The permissions that a file gets: zero stands for none, and leaves them alone.
pub open spec fn permissions(mode: u32) -> Option<u32> {
    if mode != 0 {
        Some(mode)
    } else {
        None
    }
}

/// The directory of a volume in a bundle: it bears the last piece of the volume's source.
pub open spec fn volume_dir(bundle: Seq<char>, source: Seq<char>) -> Seq<char> {
    paths::joined(paths::joined(bundle, "volumes"@), text::split(source, '/').last())
}

/// The first `n` files of the volume with number `k`, but for those whose paths lead out of its
/// directory.
pub open spec fn file_items(bundle: Seq<char>, v: VolumeInfo, k: int, n: int) -> Seq<VolumeItemView>
    decreases n,
{
    if n <= 0 {
        Seq::empty()
    } else {
        let before = file_items(bundle, v, k, n - 1);
        let f = v.inline_files@[n - 1];
        if paths::escapes(f.path@) {
            before
        } else {
            before.push(
                VolumeItemView::File {
                    path: paths::joined(volume_dir(bundle, v.source@), f.path@),
                    volume: k,
                    file: n - 1,
                    mode: permissions(f.mode),
                },
            )
        }
    }
}

/// What is written for the volume with number `k`: nothing for a block volume or one without
/// files.
pub open spec fn items_of(bundle: Seq<char>, v: VolumeInfo, k: int) -> Seq<VolumeItemView> {
    if v.is_block || v.inline_files@.len() == 0 {
        Seq::empty()
    } else {
        seq![VolumeItemView::Dir(volume_dir(bundle, v.source@))] + file_items(
            bundle,
            v,
            k,
            v.inline_files@.len() as int,
        )
    }
}

/// What is written for some volumes, volume by volume.
pub open spec fn all_items(bundle: Seq<char>, vols: Seq<VolumeInfo>) -> Seq<VolumeItemView>
    decreases vols.len(),
{
    if vols.len() == 0 {
        Seq::empty()
    } else {
        all_items(bundle, vols.drop_last()) + items_of(
            bundle,
            vols.last(),
            vols.len() - 1,
        )
    }
}

fn push_items(bundle: &str, v: &VolumeInfo, k: usize, out: &mut Vec<VolumeItem>)
    ensures
        item_views(final(out)@) == item_views(old(out)@) + items_of(bundle@, *v, k as int),
{
    let ghost start = item_views(out@);
    if v.is_block || v.inline_files.len() == 0 {
        assert(start + items_of(bundle@, *v, k as int) =~= start);
        return;
    }
    let base: String = paths::join(bundle, "volumes");
    let name: String = paths::last_piece(v.source.as_str());
    let dir: String = paths::join(base.as_str(), name.as_str());
    let ghost head = seq![VolumeItemView::Dir(dir@)];
    out.push(VolumeItem::Dir(dir.clone()));
    let mut n: usize = 0;
    assert(item_views(out@) =~= start + (head + file_items(bundle@, *v, k as int, 0)));
    while n < v.inline_files.len()
        invariant
            n <= v.inline_files@.len(),
            dir@ == volume_dir(bundle@, v.source@),
            item_views(out@) == start + (head + file_items(bundle@, *v, k as int, n as int)),
        decreases v.inline_files@.len() - n,
    {
        let ghost before = file_items(bundle@, *v, k as int, n as int);
        let f: &container::InlineFileInfo = &v.inline_files[n];
        if !paths::may_escape(f.path.as_str()) {
            let ghost was = out@;
            let path: String = paths::join(dir.as_str(), f.path.as_str());
            let mode: Option<u32> = if f.mode != 0 {
                Some(f.mode)
            } else {
                None
            };
            let item: VolumeItem = VolumeItem::File { path, volume: k, file: n, mode };
            let ghost iv = item@;
            out.push(item);
            proof {
                assert(item_views(out@) =~= item_views(was).push(iv));
                assert((start + (head + before)).push(iv) =~= start + (head + before.push(iv)));
            }
        }
        n += 1;
    }
}

/// Lists what is written for the volumes of a container.
pub fn volume_items(bundle: &str, volumes: &Vec<VolumeInfo>) -> (res: Vec<VolumeItem>)
    ensures
        item_views(res@) == all_items(bundle@, volumes@),
{
    let mut out: Vec<VolumeItem> = Vec::new();
    let mut k: usize = 0;
    assert(item_views(out@) =~= all_items(bundle@, volumes@.take(0)));
    while k < volumes.len()
        invariant
            k <= volumes@.len(),
            item_views(out@) == all_items(bundle@, volumes@.take(k as int)),
        decreases volumes@.len() - k,
    {
        assert(volumes@.take(k + 1).drop_last() =~= volumes@.take(k as int));
        push_items(bundle, &volumes[k], k, &mut out);
        k += 1;
    }
    assert(volumes@.take(volumes@.len() as int) =~= volumes@);
    out
}

/// No file is written outside its volume's directory.
pub proof fn law_files_stay_in_volume(bundle: Seq<char>, vols: Seq<VolumeInfo>, i: int)
    requires
        0 <= i < all_items(bundle, vols).len(),
    ensures
        all_items(bundle, vols)[i] matches VolumeItemView::File { path, volume, file, mode } ==> {
            &&& 0 <= volume < vols.len()
            &&& 0 <= file < vols[volume].inline_files@.len()
            &&& mode == permissions(vols[volume].inline_files@[file].mode)
            &&& !paths::escapes(vols[volume].inline_files@[file].path@)
            &&& path == paths::joined(
                volume_dir(bundle, vols[volume].source@),
                vols[volume].inline_files@[file].path@,
            )
            &&& text::has_prefix(path, volume_dir(bundle, vols[volume].source@))
        },
    decreases vols.len(),
{
    if vols.len() > 0 {
        let before = all_items(bundle, vols.drop_last());
        if i < before.len() {
            law_files_stay_in_volume(bundle, vols.drop_last(), i);
        } else {
            let v = vols.last();
            let j = i - before.len();
            if j > 0 {
                lemma_file_items(bundle, v, vols.len() - 1, v.inline_files@.len() as int, j - 1);
            }
        }
        if let VolumeItemView::File { path, volume, file, mode } = all_items(bundle, vols)[i] {
            paths::law_safe_path_stays_inside(
                volume_dir(bundle, vols[volume].source@),
                vols[volume].inline_files@[file].path@,
            );
        }
    }
}

proof fn lemma_file_items(bundle: Seq<char>, v: VolumeInfo, k: int, n: int, i: int)
    requires
        0 <= i < file_items(bundle, v, k, n).len(),
        n <= v.inline_files@.len(),
    ensures
        file_items(bundle, v, k, n)[i] matches VolumeItemView::File { path, volume, file, mode }
            && volume == k && 0 <= file < n && mode == permissions(
            v.inline_files@[file].mode,
        )
            && !paths::escapes(v.inline_files@[file].path@) && path == paths::joined(
            volume_dir(bundle, v.source@),
            v.inline_files@[file].path@,
        ),
    decreases n,
{
    if n > 0 {
        let before = file_items(bundle, v, k, n - 1);
        if i < before.len() {
            lemma_file_items(bundle, v, k, n - 1, i);
        }
    }
}

/// The device of a rootfs that was attached before the VM booted.
pub const PREATTACHED_DEVICE: &'static str = "/dev/vdb";

/// How often a disk is mounted before that counts as failed.
pub const MOUNT_ATTEMPTS: u32 = 20;

/// The pause between two attempts to mount, in milliseconds.
pub const MOUNT_PAUSE_MS: u64 = 100;

/// The pause between two looks for a disk, in milliseconds.
pub const FIND_PAUSE_MS: u64 = 50;

/// How long a disk is looked for, in milliseconds.
pub const FIND_DEADLINE_MS: u64 = 10000;

/// Why a container could not be created.
#[derive(Debug, Clone, Copy, PartialEq, Eq, Structural)]
pub enum CreateError {
    /// A directory or file could not be written.
    Write,
    /// The disk with the rootfs did not appear.
    NoDisk,
    /// The disk with the rootfs could not be mounted.
    MountDisk,
    /// The rootfs could not be mounted in the bundle.
    BindRootfs,
    /// There is no specification: not with the request, not on the disk, not in the bundle.
    NoConfig,
    /// The specification could not be adapted to the VM.
    Adapt,
}

/// How far creating a container has come.
#[derive(Debug, Clone, Copy, PartialEq, Eq, Structural)]
pub enum CreatePhase {
    BundleDir,
    DiskDir,
    FindDisk,
    FindPause,
    /// The disk is being mounted; the attempts count from one.
    MountDisk(u32),
    MountPause(u32),
    CheckRootfs,
    RootfsDir,
    BindRootfs,
    WriteConfig,
    CheckDiskConfig,
    CopyConfig,
    CheckBundleConfig,
    /// The volume item with this number is being written.
    Item(usize),
    CheckDiskVolumes,
    CheckBundleVolumes,
    LinkVolumes,
    Adapt,
    Done,
    Failed(CreateError),
}

/// What to do next.
#[derive(Debug)]
pub enum CreateAction {
    /// Make a directory and those above it.
    MakeDir(String),
    /// Look for a disk that was plugged in.
    FindDisk,
    /// Wait so many milliseconds.
    Sleep(u64),
    /// Mount this device, an ext4 file system, at this place.
    MountDisk(String, String),
    /// See whether this path exists.
    Exists(String),
    /// Mount the first of these at the second.
    Bind(String, String),
    /// Write the specification that came with the request to this file.
    WriteConfig(String),
    /// Copy the first of these files to the second.
    Copy(String, String),
    /// Write the volume item with this number.
    WriteItem(usize),
    /// Link to the first of these under the name of the second.
    Symlink(String, String),
    /// Adapt the specification in this file to the VM.
    Adapt(String),
    /// Nothing: the container is created.
    Done,
    /// Nothing: the container cannot be created.
    Fail(CreateError),
}

/// What came of an action.
#[derive(Debug)]
pub enum CreateEvent {
    /// Whether it succeeded, or whether the path exists.
    Outcome(bool),
    /// The device of the disk, where it was found, and how long it has been looked for, in
    /// milliseconds.
    Disk(Option<String>, u64),
    Slept,
}

/// A container that is being created.
#[derive(Debug)]
pub struct CreateRun {
    id: String,
    preattached: bool,
    inline_config: bool,
    items: Vec<VolumeItem>,
    device: String,
    /// Whether the rootfs is in a directory of its own on the disk.
    nested: bool,
    phase: CreatePhase,
}

/// The state of a container that is being created.
pub struct CreateView {
    pub id: Seq<char>,
    pub preattached: bool,
    pub inline_config: bool,
    pub items: Seq<VolumeItemView>,
    pub device: Seq<char>,
    pub nested: bool,
    pub phase: CreatePhase,
}

impl View for CreateRun {
    type V = CreateView;

    closed spec fn view(&self) -> CreateView {
        CreateView {
            id: self.id@,
            preattached: self.preattached,
            inline_config: self.inline_config,
            items: item_views(self.items@),
            device: self.device@,
            nested: self.nested,
            phase: self.phase,
        }
    }
}

impl CreateView {
    pub open spec fn to(self, phase: CreatePhase) -> CreateView {
        CreateView { phase, ..self }
    }

    /// The bundle of the container.
    pub open spec fn bundle(self) -> Seq<char> {
        container::bundle_dir(self.id)
    }

    /// Where the disk is mounted.
    pub open spec fn disk(self) -> Seq<char> {
        paths::joined(self.bundle(), "_disk"@)
    }

    /// Something in the bundle.
    pub open spec fn in_bundle(self, name: Seq<char>) -> Seq<char> {
        paths::joined(self.bundle(), name)
    }

    /// Something on the disk.
    pub open spec fn on_disk(self, name: Seq<char>) -> Seq<char> {
        paths::joined(self.disk(), name)
    }

    /// The phase in which the volume item with this number is written, or what follows the last.
    pub open spec fn item_phase(self, i: int) -> CreatePhase {
        if i < self.items.len() {
            CreatePhase::Item(i as usize)
        } else {
            CreatePhase::CheckDiskVolumes
        }
    }

    /// `phase` where something succeeded, and failure where it did not.
    pub open spec fn unless(self, ok: bool, e: CreateError, phase: CreatePhase) -> CreateView {
        self.to(
            if ok {
                phase
            } else {
                CreatePhase::Failed(e)
            },
        )
    }

    /// Whether `a` is what is asked for in the phase.
    pub open spec fn asks(self, a: CreateAction) -> bool {
        match self.phase {
            CreatePhase::BundleDir => a matches CreateAction::MakeDir(d) && d@ == self.bundle(),
            CreatePhase::DiskDir => a matches CreateAction::MakeDir(d) && d@ == self.disk(),
            CreatePhase::FindDisk => a == CreateAction::FindDisk,
            CreatePhase::FindPause => a == CreateAction::Sleep(FIND_PAUSE_MS),
            CreatePhase::MountDisk(_) => a matches CreateAction::MountDisk(dev, dir) && dev@
                == self.device && dir@ == self.disk(),
            CreatePhase::MountPause(_) => a == CreateAction::Sleep(MOUNT_PAUSE_MS),
            CreatePhase::CheckRootfs => a matches CreateAction::Exists(p) && p@ == self.on_disk(
                "rootfs"@,
            ),
            CreatePhase::RootfsDir => a matches CreateAction::MakeDir(d) && d@ == self.in_bundle(
                "rootfs"@,
            ),
            CreatePhase::BindRootfs => a matches CreateAction::Bind(from, to) && from@ == (
            if self.nested {
                self.on_disk("rootfs"@)
            } else {
                self.disk()
            }) && to@ == self.in_bundle("rootfs"@),
            CreatePhase::WriteConfig => a matches CreateAction::WriteConfig(f) && f@
                == self.in_bundle("config.json"@),
            CreatePhase::CheckDiskConfig => a matches CreateAction::Exists(p) && p@
                == self.on_disk("config.json"@),
            CreatePhase::CopyConfig => a matches CreateAction::Copy(from, to) && from@
                == self.on_disk("config.json"@) && to@ == self.in_bundle("config.json"@),
            CreatePhase::CheckBundleConfig => a matches CreateAction::Exists(p) && p@
                == self.in_bundle("config.json"@),
            CreatePhase::Item(i) => a == CreateAction::WriteItem(i),
            CreatePhase::CheckDiskVolumes => a matches CreateAction::Exists(p) && p@
                == self.on_disk("volumes"@),
            CreatePhase::CheckBundleVolumes => a matches CreateAction::Exists(p) && p@
                == self.in_bundle("volumes"@),
            CreatePhase::LinkVolumes => a matches CreateAction::Symlink(from, to) && from@
                == self.on_disk("volumes"@) && to@ == self.in_bundle("volumes"@),
            CreatePhase::Adapt => a matches CreateAction::Adapt(f) && f@ == self.in_bundle(
                "config.json"@,
            ),
            CreatePhase::Done => a == CreateAction::Done,
            CreatePhase::Failed(e) => a == CreateAction::Fail(e),
        }
    }

    /// The state after something succeeded or failed, or exists or not.
    pub open spec fn after_outcome(self, ok: bool) -> CreateView {
        match self.phase {
            CreatePhase::BundleDir => self.unless(ok, CreateError::Write, CreatePhase::DiskDir),
            CreatePhase::DiskDir => if self.preattached {
                CreateView { device: PREATTACHED_DEVICE@, ..self }.unless(
                    ok,
                    CreateError::Write,
                    CreatePhase::MountDisk(1),
                )
            } else {
                self.unless(ok, CreateError::Write, CreatePhase::FindDisk)
            },
            CreatePhase::MountDisk(n) => self.to(
                if ok {
                    CreatePhase::CheckRootfs
                } else if n < MOUNT_ATTEMPTS {
                    CreatePhase::MountPause(n)
                } else {
                    CreatePhase::Failed(CreateError::MountDisk)
                },
            ),
            CreatePhase::CheckRootfs => CreateView { nested: ok, ..self }.to(
                CreatePhase::RootfsDir,
            ),
            CreatePhase::RootfsDir => self.unless(ok, CreateError::Write, CreatePhase::BindRootfs),
            CreatePhase::BindRootfs => self.unless(
                ok,
                CreateError::BindRootfs,
                if self.inline_config {
                    CreatePhase::WriteConfig
                } else {
                    CreatePhase::CheckDiskConfig
                },
            ),
            CreatePhase::WriteConfig => self.unless(ok, CreateError::Write, self.item_phase(0)),
            CreatePhase::CheckDiskConfig => self.to(
                if ok {
                    CreatePhase::CopyConfig
                } else {
                    CreatePhase::CheckBundleConfig
                },
            ),
            CreatePhase::CopyConfig => self.unless(ok, CreateError::Write, self.item_phase(0)),
            CreatePhase::CheckBundleConfig => self.unless(
                ok,
                CreateError::NoConfig,
                self.item_phase(0),
            ),
            CreatePhase::Item(i) => self.unless(ok, CreateError::Write, self.item_phase(i + 1)),
            CreatePhase::CheckDiskVolumes => self.to(
                if ok {
                    CreatePhase::CheckBundleVolumes
                } else {
                    CreatePhase::Adapt
                },
            ),
            CreatePhase::CheckBundleVolumes => self.to(
                if ok {
                    CreatePhase::Adapt
                } else {
                    CreatePhase::LinkVolumes
                },
            ),
            CreatePhase::LinkVolumes => self.unless(ok, CreateError::Write, CreatePhase::Adapt),
            CreatePhase::Adapt => self.unless(ok, CreateError::Adapt, CreatePhase::Done),
            _ => self,
        }
    }

    /// The state after an event. An event that is not waited for changes nothing.
    pub open spec fn after(self, event: CreateEvent) -> CreateView {
        match event {
            CreateEvent::Outcome(ok) => self.after_outcome(ok),
            CreateEvent::Disk(found, elapsed_ms) => if self.phase == CreatePhase::FindDisk {
                match found {
                    Some(d) => CreateView { device: d@, ..self }.to(CreatePhase::MountDisk(1)),
                    None => self.to(
                        if elapsed_ms > FIND_DEADLINE_MS {
                            CreatePhase::Failed(CreateError::NoDisk)
                        } else {
                            CreatePhase::FindPause
                        },
                    ),
                }
            } else {
                self
            },
            CreateEvent::Slept => match self.phase {
                CreatePhase::FindPause => self.to(CreatePhase::FindDisk),
                CreatePhase::MountPause(n) => self.to(CreatePhase::MountDisk((n + 1) as u32)),
                _ => self,
            },
        }
    }

    /// Attempts are bounded, and an item that is being written is in the list.
    pub open spec fn wf(self) -> bool {
        match self.phase {
            CreatePhase::MountDisk(n) => 1 <= n <= MOUNT_ATTEMPTS,
            CreatePhase::MountPause(n) => 1 <= n < MOUNT_ATTEMPTS,
            CreatePhase::Item(i) => i < self.items.len(),
            _ => true,
        }
    }
}

impl CreateRun {
    /// Starts creating a container. `preattached` says that its rootfs was attached before the VM
    /// booted, `inline_config` that its specification came with the request.
    pub fn new(
        id: &str,
        volumes: &Vec<VolumeInfo>,
        inline_config: bool,
        preattached: bool,
    ) -> (res: Self)
        ensures
            res@.wf(),
            res@.id == id@,
            res@.preattached == preattached,
            res@.inline_config == inline_config,
            res@.items == all_items(container::bundle_dir(id@), volumes@),
            res@.phase == CreatePhase::BundleDir,
    {
        let bundle: String = container::bundle(id);
        CreateRun {
            id: id.to_owned(),
            preattached,
            inline_config,
            items: volume_items(bundle.as_str(), volumes),
            device: String::new(),
            nested: false,
            phase: CreatePhase::BundleDir,
        }
    }

    /// The volume item with this number.
    pub fn item(&self, i: usize) -> (res: &VolumeItem)
        requires
            i < self@.items.len(),
        ensures
            res@ == self@.items[i as int],
    {
        &self.items[i]
    }

    /// The device that the rootfs is on.
    pub fn device(&self) -> (res: &str)
        ensures
            res@ == self@.device,
    {
        self.device.as_str()
    }

    fn in_bundle(&self, name: &str) -> (res: String)
        ensures
            res@ == self@.in_bundle(name@),
    {
        let b: String = container::bundle(self.id.as_str());
        paths::join(b.as_str(), name)
    }

    fn on_disk(&self, name: &str) -> (res: String)
        ensures
            res@ == self@.on_disk(name@),
    {
        let d: String = self.in_bundle("_disk");
        paths::join(d.as_str(), name)
    }

    /// What to do next.
    pub fn action(&self) -> (res: CreateAction)
        requires
            self@.wf(),
        ensures
            self@.asks(res),
    {
        match self.phase {
            CreatePhase::BundleDir => CreateAction::MakeDir(container::bundle(self.id.as_str())),
            CreatePhase::DiskDir => CreateAction::MakeDir(self.in_bundle("_disk")),
            CreatePhase::FindDisk => CreateAction::FindDisk,
            CreatePhase::FindPause => CreateAction::Sleep(FIND_PAUSE_MS),
            CreatePhase::MountDisk(_) => CreateAction::MountDisk(
                self.device.clone(),
                self.in_bundle("_disk"),
            ),
            CreatePhase::MountPause(_) => CreateAction::Sleep(MOUNT_PAUSE_MS),
            CreatePhase::CheckRootfs => CreateAction::Exists(self.on_disk("rootfs")),
            CreatePhase::RootfsDir => CreateAction::MakeDir(self.in_bundle("rootfs")),
            CreatePhase::BindRootfs => {
                let from: String = if self.nested {
                    self.on_disk("rootfs")
                } else {
                    self.in_bundle("_disk")
                };
                CreateAction::Bind(from, self.in_bundle("rootfs"))
            },
            CreatePhase::WriteConfig => CreateAction::WriteConfig(self.in_bundle("config.json")),
            CreatePhase::CheckDiskConfig => CreateAction::Exists(self.on_disk("config.json")),
            CreatePhase::CopyConfig => CreateAction::Copy(
                self.on_disk("config.json"),
                self.in_bundle("config.json"),
            ),
            CreatePhase::CheckBundleConfig => CreateAction::Exists(self.in_bundle("config.json")),
            CreatePhase::Item(i) => CreateAction::WriteItem(i),
            CreatePhase::CheckDiskVolumes => CreateAction::Exists(self.on_disk("volumes")),
            CreatePhase::CheckBundleVolumes => CreateAction::Exists(self.in_bundle("volumes")),
            CreatePhase::LinkVolumes => CreateAction::Symlink(
                self.on_disk("volumes"),
                self.in_bundle("volumes"),
            ),
            CreatePhase::Adapt => CreateAction::Adapt(self.in_bundle("config.json")),
            CreatePhase::Done => CreateAction::Done,
            CreatePhase::Failed(e) => CreateAction::Fail(e),
        }
    }

    fn item_phase(&self, i: usize) -> (res: CreatePhase)
        ensures
            res == self@.item_phase(i as int),
    {
        if i < self.items.len() {
            CreatePhase::Item(i)
        } else {
            CreatePhase::CheckDiskVolumes
        }
    }

    fn on_outcome(&mut self, ok: bool)
        requires
            old(self)@.wf(),
        ensures
            final(self)@.wf(),
            final(self)@ == old(self)@.after_outcome(ok),
    {
        let failed: CreatePhase = CreatePhase::Failed(CreateError::Write);
        let next: CreatePhase = match self.phase {
            CreatePhase::BundleDir => if ok {
                CreatePhase::DiskDir
            } else {
                failed
            },
            CreatePhase::DiskDir => if self.preattached {
                self.device = PREATTACHED_DEVICE.to_owned();
                if ok {
                    CreatePhase::MountDisk(1)
                } else {
                    failed
                }
            } else if ok {
                CreatePhase::FindDisk
            } else {
                failed
            },
            CreatePhase::MountDisk(n) => if ok {
                CreatePhase::CheckRootfs
            } else if n < MOUNT_ATTEMPTS {
                CreatePhase::MountPause(n)
            } else {
                CreatePhase::Failed(CreateError::MountDisk)
            },
            CreatePhase::CheckRootfs => {
                self.nested = ok;
                CreatePhase::RootfsDir
            },
            CreatePhase::RootfsDir => if ok {
                CreatePhase::BindRootfs
            } else {
                failed
            },
            CreatePhase::BindRootfs => if !ok {
                CreatePhase::Failed(CreateError::BindRootfs)
            } else if self.inline_config {
                CreatePhase::WriteConfig
            } else {
                CreatePhase::CheckDiskConfig
            },
            CreatePhase::WriteConfig => if ok {
                self.item_phase(0)
            } else {
                failed
            },
            CreatePhase::CheckDiskConfig => if ok {
                CreatePhase::CopyConfig
            } else {
                CreatePhase::CheckBundleConfig
            },
            CreatePhase::CopyConfig => if ok {
                self.item_phase(0)
            } else {
                failed
            },
            CreatePhase::CheckBundleConfig => if ok {
                self.item_phase(0)
            } else {
                CreatePhase::Failed(CreateError::NoConfig)
            },
            CreatePhase::Item(i) => if ok {
                let n: usize = self.items.len();
                assert(i < n);
                self.item_phase(i + 1)
            } else {
                failed
            },
            CreatePhase::CheckDiskVolumes => if ok {
                CreatePhase::CheckBundleVolumes
            } else {
                CreatePhase::Adapt
            },
            CreatePhase::CheckBundleVolumes => if ok {
                CreatePhase::Adapt
            } else {
                CreatePhase::LinkVolumes
            },
            CreatePhase::LinkVolumes => if ok {
                CreatePhase::Adapt
            } else {
                failed
            },
            CreatePhase::Adapt => if ok {
                CreatePhase::Done
            } else {
                CreatePhase::Failed(CreateError::Adapt)
            },
            other => other,
        };
        self.phase = next;
    }

    /// Takes in what came of the last action.
    pub fn step(&mut self, event: CreateEvent)
        requires
            old(self)@.wf(),
        ensures
            final(self)@.wf(),
            final(self)@ == old(self)@.after(event),
    {
        match event {
            CreateEvent::Outcome(ok) => self.on_outcome(ok),
            CreateEvent::Disk(found, elapsed_ms) => {
                if let CreatePhase::FindDisk = self.phase {
                    match found {
                        Some(d) => {
                            self.device = d;
                            self.phase = CreatePhase::MountDisk(1);
                        },
                        None => {
                            self.phase = if elapsed_ms > FIND_DEADLINE_MS {
                                CreatePhase::Failed(CreateError::NoDisk)
                            } else {
                                CreatePhase::FindPause
                            };
                        },
                    }
                }
            },
            CreateEvent::Slept => {
                match self.phase {
                    CreatePhase::FindPause => {
                        self.phase = CreatePhase::FindDisk;
                    },
                    CreatePhase::MountPause(n) => {
                        self.phase = CreatePhase::MountDisk(n + 1);
                    },
                    _ => {},
                }
            },
        }
    }
}

/// A rootfs that was attached before the VM booted is never looked for: its device is fixed.
pub proof fn law_preattached_is_not_searched(c: CreateView, event: CreateEvent)
    requires
        c.preattached,
        c.phase != CreatePhase::FindDisk,
        c.phase != CreatePhase::FindPause,
    ensures
        c.after(event).phase != CreatePhase::FindDisk,
        c.after(event).phase != CreatePhase::FindPause,
        c.after(event).preattached,
        c.phase == CreatePhase::DiskDir && event == CreateEvent::Outcome(true) ==> c.after(
            event,
        ).device == PREATTACHED_DEVICE@,
{
}

/// The specification that came with the request is preferred to one on the disk.
pub proof fn law_inline_config_preferred(c: CreateView)
    requires
        c.phase == CreatePhase::BindRootfs,
    ensures
        c.inline_config ==> c.after(CreateEvent::Outcome(true)).phase == CreatePhase::WriteConfig,
        !c.inline_config ==> c.after(CreateEvent::Outcome(true)).phase
            == CreatePhase::CheckDiskConfig,
{
}

/// Every file of a file system volume that stays inside its volume is written, in the directory of
/// its volume and with its permissions; the directory is made before. Block volumes get nothing.
pub proof fn law_every_file_is_written(bundle: Seq<char>, vols: Seq<VolumeInfo>, v: int, f: int)
    requires
        0 <= v < vols.len(),
        0 <= f < vols[v].inline_files@.len(),
        !vols[v].is_block,
    ensures
        !paths::escapes(vols[v].inline_files@[f].path@) ==> exists|i: int, j: int|
            0 <= i < j < all_items(bundle, vols).len() && #[trigger] all_items(bundle, vols)[i]
                == VolumeItemView::Dir(volume_dir(bundle, vols[v].source@))
                && #[trigger] all_items(bundle, vols)[j] == (VolumeItemView::File {
                path: paths::joined(
                    volume_dir(bundle, vols[v].source@),
                    vols[v].inline_files@[f].path@,
                ),
                volume: v,
                file: f,
                mode: if vols[v].inline_files@[f].mode == 0 {
                    None
                } else {
                    Some(vols[v].inline_files@[f].mode)
                },
            }),
    decreases vols.len(),
{
    if !paths::escapes(vols[v].inline_files@[f].path@) {
        let most = vols.drop_last();
        let before = all_items(bundle, most);
        let all = all_items(bundle, vols);
        let last = items_of(bundle, vols.last(), vols.len() - 1);
        if v < most.len() {
            assert(most[v] == vols[v]);
            law_every_file_is_written(bundle, most, v, f);
            let (i, j) = choose|i: int, j: int|
                0 <= i < j < before.len() && #[trigger] before[i] == VolumeItemView::Dir(
                    volume_dir(bundle, vols[v].source@),
                ) && #[trigger] before[j] == (VolumeItemView::File {
                    path: paths::joined(
                        volume_dir(bundle, vols[v].source@),
                        vols[v].inline_files@[f].path@,
                    ),
                    volume: v,
                    file: f,
                    mode: if vols[v].inline_files@[f].mode == 0 {
                        None
                    } else {
                        Some(vols[v].inline_files@[f].mode)
                    },
                });
            assert(all[i] == before[i]);
            assert(all[j] == before[j]);
        } else {
            let n = vols[v].inline_files@.len() as int;
            let j = lemma_file_item(bundle, vols[v], v, n, f);
            assert(last[0] == VolumeItemView::Dir(volume_dir(bundle, vols[v].source@)));
            assert(last[j + 1] == file_items(bundle, vols[v], v, n)[j]);
            assert(all[before.len() as int] == last[0]);
            assert(all[before.len() + (j + 1)] == last[j + 1]);
        }
    }
}

proof fn lemma_file_item(bundle: Seq<char>, v: VolumeInfo, k: int, n: int, f: int) -> (j: int)
    requires
        0 <= f < n <= v.inline_files@.len(),
        !paths::escapes(v.inline_files@[f].path@),
    ensures
        0 <= j < file_items(bundle, v, k, n).len(),
        file_items(bundle, v, k, n)[j] == (VolumeItemView::File {
            path: paths::joined(volume_dir(bundle, v.source@), v.inline_files@[f].path@),
            volume: k,
            file: f,
            mode: if v.inline_files@[f].mode == 0 {
                None
            } else {
                Some(v.inline_files@[f].mode)
            },
        }),
    decreases n,
{
    let before = file_items(bundle, v, k, n - 1);
    if f == n - 1 {
        before.len() as int
    } else {
        let j = lemma_file_item(bundle, v, k, n - 1, f);
        assert(file_items(bundle, v, k, n)[j] == before[j]);
        j
    }
}

/// The files of a volume are written where the volume is mounted from: the directory that the agent
/// writes them to is the source that the request names for the volume.
pub proof fn law_files_are_where_mounted(
    id: Seq<char>,
    v: VolumeSpecView,
    files: Seq<InlineFileInfo>,
)
    requires
        id.len() > 0,
        id[0] != '/',
        id.last() != '/',
        !v.volume_id.contains('/'),
        v.volume_id.len() > 0,
        !v.is_block,
        !v.is_empty_dir,
    ensures
        volume_dir(
            container::bundle_dir(id),
            request::mount_for(v, request::bundle_path(id), files).source,
        ) == request::mount_for(v, request::bundle_path(id), files).source,
{
    reveal_strlit("/run/containers");
    reveal_strlit("/run/containers/");
    reveal_strlit("volumes");
    reveal_strlit("/volumes/");
    assert("/run/containers/"@ =~= "/run/containers"@.push('/'));
    assert("/run/containers"@.last() == 's');
    let bundle = container::bundle_dir(id);
    assert(bundle == request::bundle_path(id));
    assert(bundle.last() == id.last());
    assert("volumes"@[0] == 'v');
    let dir = paths::joined(bundle, "volumes"@);
    assert(dir.last() == 's');
    let source = request::mount_for(v, bundle, files).source;
    assert("/volumes/"@ =~= seq!['/'] + "volumes"@ + seq!['/']);
    assert(source =~= dir.push('/') + v.volume_id);
    text::law_split_plain(v.volume_id, '/');
    text::law_split_at_separator(dir, '/', v.volume_id);
    assert(text::split(source, '/').last() == v.volume_id);
    assert(v.volume_id[0] != '/') by {
        if v.volume_id[0] == '/' {
            assert(v.volume_id.contains('/'));
        }
    }
}

/// A step that fails fails the whole, with what it was about; only looking whether something exists
/// never does, but for the specification, which has to be somewhere.
pub proof fn law_failed_steps(c: CreateView, a: CreateAction)
    requires
        c.wf(),
        c.after_outcome(false).asks(a),
    ensures
        c.phase == CreatePhase::BundleDir || c.phase == CreatePhase::DiskDir || c.phase
            == CreatePhase::RootfsDir || c.phase == CreatePhase::WriteConfig || c.phase
            == CreatePhase::CopyConfig || c.phase is Item || c.phase == CreatePhase::LinkVolumes
            ==> a == CreateAction::Fail(CreateError::Write),
        c.phase == CreatePhase::BindRootfs ==> a == CreateAction::Fail(CreateError::BindRootfs),
        c.phase == CreatePhase::CheckBundleConfig ==> a == CreateAction::Fail(
            CreateError::NoConfig,
        ),
        c.phase == CreatePhase::Adapt ==> a == CreateAction::Fail(CreateError::Adapt),
        c.phase == CreatePhase::CheckRootfs || c.phase == CreatePhase::CheckDiskConfig || c.phase
            == CreatePhase::CheckDiskVolumes || c.phase == CreatePhase::CheckBundleVolumes ==> !(
        a is Fail),
{
}

/// A container is created only once its rootfs is mounted in the bundle, its specification is there,
/// all its files are written and its specification is adapted: no step leads on to `Done` but a
/// successful adaptation, and none to that but the steps in front of it.
pub proof fn law_steps_lead_to_done(c: CreateView, ok: bool, i: usize)
    requires
        c.wf(),
        c.items.len() < usize::MAX,
    ensures
        c.after_outcome(ok).phase == CreatePhase::Done ==> c.phase == CreatePhase::Done || (c.phase
            == CreatePhase::Adapt && ok),
        c.after_outcome(ok).phase == CreatePhase::Adapt && c.phase != CreatePhase::Adapt ==> (
        c.phase == CreatePhase::CheckDiskVolumes && !ok) || (c.phase
            == CreatePhase::CheckBundleVolumes && ok) || (c.phase == CreatePhase::LinkVolumes
            && ok),
        c.phase == CreatePhase::Item(i) && ok ==> c.after_outcome(ok).phase == if i + 1
            < c.items.len() {
            CreatePhase::Item((i + 1) as usize)
        } else {
            CreatePhase::CheckDiskVolumes
        },
        c.phase == CreatePhase::WriteConfig && ok || c.phase == CreatePhase::CopyConfig && ok
            || c.phase == CreatePhase::CheckBundleConfig && ok ==> c.after_outcome(ok).phase
            == if c.items.len() > 0 {
            CreatePhase::Item(0)
        } else {
            CreatePhase::CheckDiskVolumes
        },
        c.phase == CreatePhase::BundleDir && ok ==> c.after_outcome(ok).phase
            == CreatePhase::DiskDir,
        c.phase == CreatePhase::DiskDir && ok && !c.preattached ==> c.after_outcome(ok).phase
            == CreatePhase::FindDisk,
        c.phase == CreatePhase::DiskDir && ok && c.preattached ==> c.after_outcome(ok).phase
            == CreatePhase::MountDisk(1) && c.after_outcome(ok).device == "/dev/vdb"@,
        c.phase is MountDisk && ok ==> c.after_outcome(ok).phase == CreatePhase::CheckRootfs,
        c.phase == CreatePhase::CheckRootfs ==> c.after_outcome(ok).phase == CreatePhase::RootfsDir
            && c.after_outcome(ok).nested == ok,
        c.phase == CreatePhase::RootfsDir && ok ==> c.after_outcome(ok).phase
            == CreatePhase::BindRootfs,
        c.phase == CreatePhase::CheckDiskConfig ==> c.after_outcome(ok).phase == if ok {
            CreatePhase::CopyConfig
        } else {
            CreatePhase::CheckBundleConfig
        },
        c.phase == CreatePhase::CheckBundleVolumes && !ok ==> c.after_outcome(ok).phase
            == CreatePhase::LinkVolumes,
        c.phase == CreatePhase::CheckDiskVolumes && ok ==> c.after_outcome(ok).phase
            == CreatePhase::CheckBundleVolumes,
{
}

/// The disk with the rootfs is looked for every 50 ms until ten seconds have passed, and mounted as
/// soon as it is there, in up to twenty attempts a tenth of a second apart.
pub proof fn law_disk_is_awaited(c: CreateView, dev: String, ms: u64, n: u32, a: CreateAction)
    ensures
        c.phase == CreatePhase::FindDisk ==> c.after(CreateEvent::Disk(Some(dev), ms)).phase
            == CreatePhase::MountDisk(1) && c.after(CreateEvent::Disk(Some(dev), ms)).device == dev@,
        c.phase == CreatePhase::FindDisk && ms <= 10000 && c.after(
            CreateEvent::Disk(None, ms),
        ).asks(a) ==> a == CreateAction::Sleep(50) && c.after(CreateEvent::Disk(None, ms)).after(
            CreateEvent::Slept,
        ).phase == CreatePhase::FindDisk,
        c.phase == CreatePhase::FindDisk && ms > 10000 && c.after(
            CreateEvent::Disk(None, ms),
        ).asks(a) ==> a == CreateAction::Fail(CreateError::NoDisk),
        c.phase == CreatePhase::MountDisk(n) && 1 <= n < 20 && c.after_outcome(false).asks(a) ==> a
            == CreateAction::Sleep(100) && c.after_outcome(false).after(CreateEvent::Slept).phase
            == CreatePhase::MountDisk((n + 1) as u32),
        c.phase == CreatePhase::MountDisk(20) && c.after_outcome(false).asks(a) ==> a
            == CreateAction::Fail(CreateError::MountDisk),
{
}

/// What the steps are about: the disk is mounted below the bundle, the rootfs is that on the disk
/// where it has one of its own and else the disk, and ends up in the bundle; the specification in
/// the bundle is the one that is adapted.
pub proof fn law_paths_of_steps(c: CreateView, a: CreateAction)
    requires
        c.id.len() > 0,
        c.id[0] != '/',
        c.id.last() != '/',
        c.asks(a),
    ensures
        ({
            let bundle = "/run/containers/"@ + c.id;
            &&& c.phase == CreatePhase::BundleDir ==> (a matches CreateAction::MakeDir(d) && d@
                == bundle)
            &&& c.phase == CreatePhase::DiskDir ==> (a matches CreateAction::MakeDir(d) && d@
                == bundle + "/_disk"@)
            &&& c.phase is MountDisk ==> (a matches CreateAction::MountDisk(dev, dir) && dev@
                == c.device && dir@ == bundle + "/_disk"@)
            &&& c.phase == CreatePhase::CheckRootfs ==> (a matches CreateAction::Exists(p) && p@
                == bundle + "/_disk/rootfs"@)
            &&& c.phase == CreatePhase::BindRootfs ==> (a matches CreateAction::Bind(from, to)
                && to@ == bundle + "/rootfs"@ && from@ == if c.nested {
                bundle + "/_disk/rootfs"@
            } else {
                bundle + "/_disk"@
            })
            &&& c.phase == CreatePhase::WriteConfig ==> (a matches CreateAction::WriteConfig(f)
                && f@ == bundle + "/config.json"@)
            &&& c.phase == CreatePhase::CopyConfig ==> (a matches CreateAction::Copy(from, to)
                && from@ == bundle + "/_disk/config.json"@ && to@ == bundle + "/config.json"@)
            &&& c.phase == CreatePhase::Adapt ==> (a matches CreateAction::Adapt(f) && f@ == bundle
                + "/config.json"@)
            &&& c.phase == CreatePhase::LinkVolumes ==> (a matches CreateAction::Symlink(from, to)
                && from@ == bundle + "/_disk/volumes"@ && to@ == bundle + "/volumes"@)
        }),
{
    reveal_strlit("/run/containers");
    reveal_strlit("/run/containers/");
    reveal_strlit("_disk");
    reveal_strlit("/_disk");
    reveal_strlit("rootfs");
    reveal_strlit("/rootfs");
    reveal_strlit("/_disk/rootfs");
    reveal_strlit("config.json");
    reveal_strlit("/config.json");
    reveal_strlit("/_disk/config.json");
    reveal_strlit("volumes");
    reveal_strlit("/volumes");
    reveal_strlit("/_disk/volumes");
    let bundle = "/run/containers/"@ + c.id;
    assert("/run/containers/"@ =~= "/run/containers"@.push('/'));
    assert("/run/containers"@.last() == 's');
    assert(c.bundle() =~= bundle);
    assert(bundle.last() == c.id.last());
    assert("_disk"@[0] == '_' && "rootfs"@[0] == 'r' && "config.json"@[0] == 'c' && "volumes"@[0]
        == 'v');
    let disk = bundle + "/_disk"@;
    assert(c.disk() =~= disk);
    assert(disk.last() == 'k');
    assert(c.in_bundle("rootfs"@) =~= bundle + "/rootfs"@);
    assert(c.in_bundle("config.json"@) =~= bundle + "/config.json"@);
    assert(c.in_bundle("volumes"@) =~= bundle + "/volumes"@);
    assert(c.on_disk("rootfs"@) =~= bundle + "/_disk/rootfs"@);
    assert(c.on_disk("config.json"@) =~= bundle + "/_disk/config.json"@);
    assert(c.on_disk("volumes"@) =~= bundle + "/_disk/volumes"@);
}

/// In each phase of its creation a container asks for what the phase is named for.
pub proof fn law_create_asks(c: CreateView, a: CreateAction, i: usize)
    requires
        c.asks(a),
    ensures
        c.phase == CreatePhase::FindDisk <==> a == CreateAction::FindDisk,
        c.phase == CreatePhase::Item(i) <==> a == CreateAction::WriteItem(i),
        c.phase == CreatePhase::Done <==> a == CreateAction::Done,
        c.phase == CreatePhase::CheckDiskConfig ==> (a matches CreateAction::Exists(p) && p@
            == paths::joined(paths::joined(container::bundle_dir(c.id), "_disk"@), "config.json"@)),
        c.phase == CreatePhase::CheckBundleConfig ==> (a matches CreateAction::Exists(p) && p@
            == paths::joined(container::bundle_dir(c.id), "config.json"@)),
        c.phase == CreatePhase::CheckDiskVolumes ==> (a matches CreateAction::Exists(p) && p@
            == paths::joined(paths::joined(container::bundle_dir(c.id), "_disk"@), "volumes"@)),
        c.phase == CreatePhase::CheckBundleVolumes ==> (a matches CreateAction::Exists(p) && p@
            == paths::joined(container::bundle_dir(c.id), "volumes"@)),
        c.phase == CreatePhase::RootfsDir ==> (a matches CreateAction::MakeDir(d) && d@
            == paths::joined(container::bundle_dir(c.id), "rootfs"@)),
        c.phase matches CreatePhase::Failed(e) ==> a == CreateAction::Fail(e),
{
}

} // verus!
