//! The file systems and device nodes that the agent sets up when it is the guest's init process.

use crate::text;
use vstd::prelude::*;

verus! {

pub const MS_NOSUID: u64 = 2;

pub const MS_NODEV: u64 = 4;

pub const MS_NOEXEC: u64 = 8;

/// A file system to mount. It is left alone where its target is a mount point already.
#[derive(Debug)]
pub struct MountStep {
    pub source: String,
    pub target: String,
    pub fstype: String,
    pub flags: u64,
}

/// A device node to make.
#[derive(Debug)]
pub struct DeviceNode {
    pub path: String,
    pub major: u64,
    pub minor: u64,
    pub mode: u32,
}

/// A step of setting up the guest.
#[derive(Debug)]
pub enum SetupStep {
    /// Mount a file system; where that fails, the setup fails.
    Mount(MountStep),
    /// Make sure of a device node with [`create_dev_node`], as far as that is possible.
    Node(DeviceNode),
    /// Make a directory, as far as that is possible.
    Dir(String),
}

/// A step of setting up the guest.
pub enum SetupStepView {
    Mount { source: Seq<char>, target: Seq<char>, fstype: Seq<char>, flags: u64 },
    Node { path: Seq<char>, major: u64, minor: u64, mode: u32 },
    Dir(Seq<char>),
}

impl View for SetupStep {
    type V = SetupStepView;

    open spec fn view(&self) -> SetupStepView {
        match *self {
            SetupStep::Mount(m) => SetupStepView::Mount {
                source: m.source@,
                target: m.target@,
                fstype: m.fstype@,
                flags: m.flags,
            },
            SetupStep::Node(n) => SetupStepView::Node {
                path: n.path@,
                major: n.major,
                minor: n.minor,
                mode: n.mode,
            },
            SetupStep::Dir(d) => SetupStepView::Dir(d@),
        }
    }
}

/// The number of a device: its major and minor numbers, interleaved.
pub open spec fn device_number(major: u64, minor: u64) -> u64 {
    ((major & 0xffff_f000) << 32) | ((major & 0x0000_0fff) << 8) | ((minor & 0xffff_ff00) << 12) | (
    minor & 0x0000_00ff)
}

/// `nix::sys::stat::makedev`: the device number of a major and a minor number, as Linux lays it
/// out.
#[verifier::external_body]
fn makedev(major: u64, minor: u64) -> (res: u64)
    ensures
        res == device_number(major, minor),
{
    nix::sys::stat::makedev(major, minor)
}

/// What is done about a device node.
#[derive(Debug)]
pub enum NodeAction {
    /// The node is there: give it these permissions.
    SetMode(String, u32),
    /// Make a character device with these permissions and this device number.
    Make(String, u32, u64),
}

/// Says how to make sure of a device node: one that exists gets its permissions, another is made.
pub fn create_dev_node(path: &str, major: u64, minor: u64, mode: u32, exists: bool) -> (res:
    NodeAction)
    ensures
        match res {
            NodeAction::SetMode(p, m) => exists && p@ == path@ && m == mode,
            NodeAction::Make(p, m, dev) => !exists && p@ == path@ && m == mode && dev
                == device_number(major, minor),
        },
{
    if exists {
        NodeAction::SetMode(path.to_owned(), mode)
    } else {
        NodeAction::Make(path.to_owned(), mode, makedev(major, minor))
    }
}

/// A mount of the given kind of file system, whose source bears its name.
pub open spec fn mount_spec(fstype: Seq<char>, target: Seq<char>, flags: int) -> SetupStepView {
    SetupStepView::Mount { source: fstype, target, fstype, flags: flags as u64 }
}

/// A device node that everybody may read and write.
pub open spec fn node_spec(path: Seq<char>, major: u64, minor: u64) -> SetupStepView {
    SetupStepView::Node { path, major, minor, mode: 0x1b6 }
}

/// The steps of setting up the guest.
pub open spec fn essential_steps() -> Seq<SetupStepView> {
    let all = MS_NOSUID + MS_NODEV + MS_NOEXEC;
    seq![
        mount_spec("proc"@, "/proc"@, all),
        mount_spec("sysfs"@, "/sys"@, all),
        mount_spec("devtmpfs"@, "/dev"@, MS_NOSUID as int),
        node_spec("/dev/null"@, 1, 3),
        node_spec("/dev/zero"@, 1, 5),
        node_spec("/dev/full"@, 1, 7),
        node_spec("/dev/random"@, 1, 8),
        node_spec("/dev/urandom"@, 1, 9),
        node_spec("/dev/tty"@, 5, 0),
        SetupStepView::Dir("/dev/pts"@),
        mount_spec("devpts"@, "/dev/pts"@, MS_NOSUID + MS_NOEXEC),
        SetupStepView::Dir("/dev/shm"@),
        mount_spec("tmpfs"@, "/dev/shm"@, MS_NOSUID + MS_NODEV),
        mount_spec("tmpfs"@, "/tmp"@, MS_NOSUID as int),
        SetupStepView::Dir("/run"@),
        mount_spec("tmpfs"@, "/run"@, MS_NOSUID + MS_NODEV),
        SetupStepView::Dir("/sys/fs/cgroup"@),
        mount_spec("cgroup2"@, "/sys/fs/cgroup"@, all),
    ]
}

/// What a list of steps is.
pub open spec fn step_views(v: Seq<SetupStep>) -> Seq<SetupStepView> {
    Seq::new(v.len(), |i: int| v[i]@)
}

fn push_step(v: &mut Vec<SetupStep>, s: SetupStep)
    ensures
        step_views(final(v)@) == step_views(old(v)@).push(s@),
{
    let ghost before = v@;
    v.push(s);
    assert(step_views(v@) =~= step_views(before).push(s@));
}

fn mount_step(fstype: &str, target: &str, flags: u64) -> (res: SetupStep)
    ensures
        res@ == mount_spec(fstype@, target@, flags as int),
{
    SetupStep::Mount(
        MountStep {
            source: fstype.to_owned(),
            target: target.to_owned(),
            fstype: fstype.to_owned(),
            flags,
        },
    )
}

fn node_step(path: &str, major: u64, minor: u64) -> (res: SetupStep)
    ensures
        res@ == node_spec(path@, major, minor),
{
    SetupStep::Node(DeviceNode { path: path.to_owned(), major, minor, mode: 0o666 })
}

fn dir_step(path: &str) -> (res: SetupStep)
    ensures
        res@ == SetupStepView::Dir(path@),
{
    SetupStep::Dir(path.to_owned())
}

/// The file systems, device nodes and directories that the guest needs, in the order in which they
/// are set up.
pub fn mount_essential_filesystems() -> (res: Vec<SetupStep>)
    ensures
        step_views(res@) == essential_steps(),
{
    let all: u64 = MS_NOSUID + MS_NODEV + MS_NOEXEC;
    let mut v: Vec<SetupStep> = Vec::new();
    push_step(&mut v, mount_step("proc", "/proc", all));
    push_step(&mut v, mount_step("sysfs", "/sys", all));
    push_step(&mut v, mount_step("devtmpfs", "/dev", MS_NOSUID));
    push_step(&mut v, node_step("/dev/null", 1, 3));
    push_step(&mut v, node_step("/dev/zero", 1, 5));
    push_step(&mut v, node_step("/dev/full", 1, 7));
    push_step(&mut v, node_step("/dev/random", 1, 8));
    push_step(&mut v, node_step("/dev/urandom", 1, 9));
    push_step(&mut v, node_step("/dev/tty", 5, 0));
    push_step(&mut v, dir_step("/dev/pts"));
    push_step(&mut v, mount_step("devpts", "/dev/pts", MS_NOSUID + MS_NOEXEC));
    push_step(&mut v, dir_step("/dev/shm"));
    push_step(&mut v, mount_step("tmpfs", "/dev/shm", MS_NOSUID + MS_NODEV));
    push_step(&mut v, mount_step("tmpfs", "/tmp", MS_NOSUID));
    push_step(&mut v, dir_step("/run"));
    push_step(&mut v, mount_step("tmpfs", "/run", MS_NOSUID + MS_NODEV));
    push_step(&mut v, dir_step("/sys/fs/cgroup"));
    push_step(&mut v, mount_step("cgroup2", "/sys/fs/cgroup", all));
    assert(step_views(v@) =~= essential_steps());
    v
}

/// The share that holds container bundles.
pub fn mount_virtiofs() -> (res: MountStep)
    ensures
        res.source@ == crate::VIRTIOFS_TAG@,
        res.target@ == crate::VIRTIOFS_GUEST_MOUNT@,
        res.fstype@ == "virtiofs"@,
        res.flags == 0,
{
    MountStep {
        source: crate::VIRTIOFS_TAG.to_owned(),
        target: crate::VIRTIOFS_GUEST_MOUNT.to_owned(),
        fstype: "virtiofs".to_owned(),
        flags: 0,
    }
}

/// How often the share is mounted before that counts as failed.
pub const VIRTIOFS_ATTEMPTS: u32 = 10;

/// The pause between two attempts, in milliseconds.
pub const VIRTIOFS_PAUSE_MS: u64 = 100;

/// The pause after a failed attempt to mount the share; nothing where it was the last. Attempts
/// count from one.
pub fn virtiofs_retry(attempt: u32) -> (res: Option<u64>)
    ensures
        res == if attempt < VIRTIOFS_ATTEMPTS {
            Some(VIRTIOFS_PAUSE_MS)
        } else {
            None
        },
{
    if attempt < VIRTIOFS_ATTEMPTS {
        Some(VIRTIOFS_PAUSE_MS)
    } else {
        None
    }
}

/// Whether a line of `/proc/mounts` describes a mount at a target.
pub open spec fn mounts_at(line: Seq<char>, target: Seq<char>) -> bool {
    text::words(line).len() > 1 && text::words(line)[1] == target
}

/// Whether a target is a mount point, by the text of `/proc/mounts`.
pub fn is_mounted(mounts: &str, target: &str) -> (res: bool)
    ensures
        res == exists|i: int|
            0 <= i < text::lines(mounts@).len() && mounts_at(
                #[trigger] text::lines(mounts@)[i],
                target@,
            ),
{
    let lines: Vec<String> = text::lines_of(mounts);
    let ghost l = text::strings(lines@);
    let mut i: usize = 0;
    while i < lines.len()
        invariant
            i <= lines@.len(),
            l == text::strings(lines@),
            l == text::lines(mounts@),
            forall|k: int| 0 <= k < i ==> !mounts_at(#[trigger] l[k], target@),
        decreases lines@.len() - i,
    {
        let w: Vec<String> = text::words_of(lines[i].as_str());
        assert(l[i as int] == lines@[i as int]@);
        assert(text::strings(w@).len() == w@.len());
        if w.len() > 1 {
            assert(text::strings(w@)[1] == w@[1]@);
            if text::same(w[1].as_str(), target) {
                assert(mounts_at(l[i as int], target@));
                return true;
            }
        }
        i += 1;
    }
    assert(l.len() == lines@.len());
    false
}

/// Devices have different numbers where their major or minor numbers differ, in the range of Linux:
/// twelve bits for the one and twenty for the other.
pub proof fn law_device_numbers_differ(a: u64, b: u64, c: u64, d: u64)
    requires
        a < 0x1000,
        c < 0x1000,
        b < 0x10_0000,
        d < 0x10_0000,
        a != c || b != d,
    ensures
        device_number(a, b) != device_number(c, d),
{
    assert(((a & 0xffff_f000) << 32) | ((a & 0x0000_0fff) << 8) | ((b & 0xffff_ff00) << 12) | (b
        & 0x0000_00ff) != ((c & 0xffff_f000) << 32) | ((c & 0x0000_0fff) << 8) | ((d & 0xffff_ff00)
        << 12) | (d & 0x0000_00ff)) by (bit_vector)
        requires
            a < 0x1000,
            c < 0x1000,
            b < 0x10_0000,
            d < 0x10_0000,
            a != c || b != d,
    ;
}

/// Whether the steps mount a file system of a type at a place.
pub open spec fn mounts_there(
    steps: Seq<SetupStepView>,
    i: int,
    fs: Seq<char>,
    at: Seq<char>,
    flags: u64,
) -> bool {
    0 <= i < steps.len() && (steps[i] matches SetupStepView::Mount { source, target, fstype, flags: f }
        && fstype == fs && source == fs && target == at && f == flags)
}

/// What a guest has once its file systems are mounted: processes, system and devices first, terminals
/// and shared memory below the devices once their directories are made, temporary files and control
/// groups. Nothing that is mounted lets programs change their user.
pub proof fn law_essential_file_systems()
    ensures
        forall|i: int|
            0 <= i < essential_steps().len() ==> (
            #[trigger] essential_steps()[i] matches SetupStepView::Mount { flags, .. } ==> flags
                % 4 >= 2 && flags < 16),
        mounts_there(essential_steps(), 0, "proc"@, "/proc"@, 14),
        mounts_there(essential_steps(), 1, "sysfs"@, "/sys"@, 14),
        mounts_there(essential_steps(), 2, "devtmpfs"@, "/dev"@, 2),
        essential_steps()[9] == SetupStepView::Dir("/dev/pts"@),
        mounts_there(essential_steps(), 10, "devpts"@, "/dev/pts"@, 10),
        essential_steps()[11] == SetupStepView::Dir("/dev/shm"@),
        mounts_there(essential_steps(), 12, "tmpfs"@, "/dev/shm"@, 6),
        mounts_there(essential_steps(), 13, "tmpfs"@, "/tmp"@, 2),
        essential_steps()[14] == SetupStepView::Dir("/run"@),
        mounts_there(essential_steps(), 15, "tmpfs"@, "/run"@, 6),
        essential_steps()[16] == SetupStepView::Dir("/sys/fs/cgroup"@),
        mounts_there(essential_steps(), 17, "cgroup2"@, "/sys/fs/cgroup"@, 14),
        essential_steps().len() == 18,
{
    assert(essential_steps().len() == 18);
}

/// The device nodes of a guest have the numbers that the kernel gives these devices, and everyone
/// may read and write them.
pub proof fn law_device_nodes()
    ensures
        forall|i: int|
            0 <= i < essential_steps().len() ==> (
            #[trigger] essential_steps()[i] matches SetupStepView::Node { mode, .. } ==> mode == 6
                * 64 + 6 * 8 + 6),
        essential_steps()[3] == (SetupStepView::Node {
            path: "/dev/null"@,
            major: 1,
            minor: 3,
            mode: 438,
        }),
        essential_steps()[4] == (SetupStepView::Node {
            path: "/dev/zero"@,
            major: 1,
            minor: 5,
            mode: 438,
        }),
        essential_steps()[5] == (SetupStepView::Node {
            path: "/dev/full"@,
            major: 1,
            minor: 7,
            mode: 438,
        }),
        essential_steps()[6] == (SetupStepView::Node {
            path: "/dev/random"@,
            major: 1,
            minor: 8,
            mode: 438,
        }),
        essential_steps()[7] == (SetupStepView::Node {
            path: "/dev/urandom"@,
            major: 1,
            minor: 9,
            mode: 438,
        }),
        essential_steps()[8] == (SetupStepView::Node {
            path: "/dev/tty"@,
            major: 5,
            minor: 0,
            mode: 438,
        }),
{
    assert(essential_steps().len() == 18);
}

} // verus!
