//! The containers of a guest, and how their OCI specifications are adapted to the VM.

use crate::json;
use crate::json::{Json, JsonView};
use crate::paths;
use crate::text;
use vstd::hash_map::StringHashMap;
use vstd::prelude::*;

verus! {

/// How a container ended.
#[derive(Debug)]
pub struct ExitStatus {
    pub code: i32,
    pub exited_at: String,
}

/// A file delivered with a request to create a container.
#[derive(Debug)]
pub struct InlineFileInfo {
    pub path: String,
    pub content: Vec<u8>,
    pub mode: u32,
}

/// A volume of a container.
#[derive(Debug)]
pub struct VolumeInfo {
    pub destination: String,
    pub source: String,
    pub readonly: bool,
    pub is_block: bool,
    pub fs_type: String,
    /// The files of a file system volume; they are written in the guest's memory.
    pub inline_files: Vec<InlineFileInfo>,
}

/// Where a container is in its life.
#[derive(Debug, Clone, Copy, PartialEq, Eq, Structural)]
pub enum ContainerState {
    Created,
    Running,
    Stopped,
}

/// What the agent knows of a container.
#[derive(Debug, Clone, Copy, PartialEq, Eq, Structural)]
pub struct Container {
    pub pid: Option<u32>,
    pub exit_code: Option<i32>,
    pub state: ContainerState,
}

/// Output of a container that has not been fetched yet.
#[derive(Debug)]
pub struct ContainerLogs {
    pub stdout: Vec<u8>,
    pub stderr: Vec<u8>,
    pub eof: bool,
}

impl Default for ContainerLogs {
    fn default() -> (res: Self)
        ensures
            res.stdout@ == Seq::<u8>::empty(),
            res.stderr@ == Seq::<u8>::empty(),
            !res.eof,
    {
        ContainerLogs { stdout: Vec::new(), stderr: Vec::new(), eof: false }
    }
}

/// The containers and disks of a guest.
pub struct ContainerManager {
    containers: StringHashMap<Container>,
    known_disks: StringHashMap<bool>,
}

/// What a container manager knows.
pub struct ManagerView {
    pub containers: Map<Seq<char>, Container>,
    /// The disks that are in use, or were there from the start.
    pub known: Set<Seq<char>>,
}

impl View for ContainerManager {
    type V = ManagerView;

    closed spec fn view(&self) -> ManagerView {
        ManagerView { containers: self.containers@, known: self.known_disks@.dom() }
    }
}

/// The first disk that is not known.
pub open spec fn first_new(current: Seq<Seq<char>>, known: Set<Seq<char>>) -> Option<Seq<char>>
    decreases current.len(),
{
    if current.len() == 0 {
        None
    } else if !known.contains(current[0]) {
        Some(current[0])
    } else {
        first_new(current.skip(1), known)
    }
}

/// Those of some block devices that are virtio disks, in order.
pub open spec fn virtio_disks(names: Seq<Seq<char>>) -> Seq<Seq<char>>
    decreases names.len(),
{
    if names.len() == 0 {
        Seq::empty()
    } else if text::has_prefix(names.last(), "vd"@) {
        virtio_disks(names.drop_last()).push(names.last())
    } else {
        virtio_disks(names.drop_last())
    }
}

/// Keeps those of some block devices that are virtio disks.
pub fn scan_block_devices(names: &Vec<String>) -> (res: Vec<String>)
    ensures
        text::strings(res@) == virtio_disks(text::strings(names@)),
{
    let ghost n = text::strings(names@);
    let mut out: Vec<String> = Vec::new();
    let mut i: usize = 0;
    while i < names.len()
        invariant
            i <= names@.len(),
            n == text::strings(names@),
            text::strings(out@) =~= virtio_disks(n.take(i as int)),
        decreases names@.len() - i,
    {
        assert(n.take(i + 1).drop_last() =~= n.take(i as int));
        assert(n.take(i + 1).last() == names@[i as int]@);
        if text::starts_with(names[i].as_str(), "vd") {
            let ghost was = out@;
            let s: String = names[i].clone();
            let ghost sv = s@;
            out.push(s);
            assert(text::strings(out@) =~= text::strings(was).push(sv));
        }
        i += 1;
    }
    assert(n.take(names@.len() as int) =~= n);
    out
}

/// The path of a disk's device.
pub open spec fn device_path(disk: Seq<char>) -> Seq<char> {
    "/dev/"@ + disk
}

impl ManagerView {
    /// The manager after a container's entry changed.
    pub open spec fn with_container(self, id: Seq<char>, c: Container) -> ManagerView {
        ManagerView { containers: self.containers.insert(id, c), ..self }
    }

    /// The manager once a disk is in use.
    pub open spec fn with_disk(self, disk: Seq<char>) -> ManagerView {
        ManagerView { known: self.known.insert(disk), ..self }
    }

    /// The manager after a container stopped.
    pub open spec fn stopped(self, id: Seq<char>, code: i32) -> ManagerView {
        if self.containers.contains_key(id) {
            self.with_container(
                id,
                Container {
                    state: ContainerState::Stopped,
                    exit_code: Some(code),
                    ..self.containers[id]
                },
            )
        } else {
            self
        }
    }

    /// The manager after a container was started.
    pub open spec fn started(self, id: Seq<char>, pid: u32) -> ManagerView {
        if self.containers.contains_key(id) {
            self.with_container(
                id,
                Container {
                    state: ContainerState::Running,
                    pid: Some(pid),
                    ..self.containers[id]
                },
            )
        } else {
            self
        }
    }
}

/// What is to be done about a signal for a container.
#[derive(Debug)]
pub enum KillAction {
    /// Nothing: the container has stopped.
    Nothing,
    /// Run the container runtime with these arguments.
    Run(Vec<String>),
}

/// The state of a container, as it is reported.
#[derive(Debug, Clone, Copy, PartialEq, Eq, Structural)]
pub struct StateReport {
    /// The container's state; nothing where the container is not known.
    pub state: Option<ContainerState>,
    pub pid: u32,
    pub exit_status: u32,
}

/// The bundle of a container in the guest.
pub open spec fn bundle_dir(id: Seq<char>) -> Seq<char> {
    paths::joined("/run/containers"@, id)
}

/// The bundle of a container in the guest.
pub fn bundle(id: &str) -> (res: String)
    ensures
        res@ == bundle_dir(id@),
{
    paths::join("/run/containers", id)
}

/// A signed number in 32 bits, as the unsigned number with the same bits.
pub open spec fn unsigned32(n: int) -> int {
    if n >= 0 {
        n
    } else {
        n + 4294967296
    }
}

/// A signed number in 32 bits, as the unsigned number with the same bits.
pub fn to_unsigned32(n: i32) -> (res: u32)
    ensures
        res == unsigned32(n as int),
{
    if n >= 0 {
        n as u32
    } else {
        (n as i64 + 4294967296) as u32
    }
}

/// The exit code of a container that was killed or lost.
pub const KILLED: i32 = 137;

impl ContainerManager {
    /// A manager without containers. The disks that are there now are known.
    pub fn new(disks: &Vec<String>) -> (res: Self)
        ensures
            res@.containers == Map::<Seq<char>, Container>::empty(),
            forall|d: Seq<char>| #[trigger] res@.known.contains(d) == text::strings(disks@).contains(d),
    {
        let mut known: StringHashMap<bool> = StringHashMap::new();
        let mut i: usize = 0;
        while i < disks.len()
            invariant
                i <= disks@.len(),
                forall|d: Seq<char>| #[trigger]
                    known@.dom().contains(d) == text::strings(disks@).take(i as int).contains(d),
            decreases disks@.len() - i,
        {
            let ghost before = known@.dom();
            known.insert(disks[i].clone(), true);
            proof {
                let s = text::strings(disks@);
                let a = s.take(i as int);
                let b = s.take(i + 1);
                assert(b =~= a.push(disks@[i as int]@));
                assert forall|d: Seq<char>| #[trigger] known@.dom().contains(d) == b.contains(d) by {
                    assert(before.contains(d) == a.contains(d));
                    assert(b[i as int] == disks@[i as int]@);
                    if a.contains(d) {
                        let k = choose|k: int| 0 <= k < a.len() && a[k] == d;
                        assert(b[k] == d);
                    }
                    if b.contains(d) {
                        let k = choose|k: int| 0 <= k < b.len() && b[k] == d;
                        assert(k < i ==> a[k] == d);
                    }
                }
            }
            i += 1;
        }
        assert(text::strings(disks@).take(disks@.len() as int) =~= text::strings(disks@));
        ContainerManager { containers: StringHashMap::new(), known_disks: known }
    }

    /// Takes the first disk that is not known into use, where there is one, and gives the path
    /// of its device. `current` are the disks that are there now.
    pub fn discover_block_device(&mut self, current: &Vec<String>) -> (res: Option<String>)
        ensures
            match first_new(text::strings(current@), old(self)@.known) {
                Some(d) => text::opt_string(res) == Some(device_path(d)) && final(self)@ == old(
                    self,
                )@.with_disk(d),
                None => res is None && final(self)@ == old(self)@,
            },
    {
        let ghost c = text::strings(current@);
        let mut i: usize = 0;
        assert(c.skip(0) =~= c);
        while i < current.len()
            invariant
                i <= current@.len(),
                c == text::strings(current@),
                *self == *old(self),
                first_new(c, self@.known) == first_new(c.skip(i as int), self@.known),
            decreases current@.len() - i,
        {
            assert(c.skip(i as int)[0] == current@[i as int]@);
            assert(c.skip(i as int).skip(1) =~= c.skip(i + 1));
            if !self.known_disks.contains_key(current[i].as_str()) {
                let ghost before = self.known_disks@;
                self.known_disks.insert(current[i].clone(), true);
                assert(self.known_disks@.dom() =~= before.dom().insert(current@[i as int]@));
                return Some(text::join2("/dev/", current[i].as_str()));
            }
            i += 1;
        }
        None
    }

    /// Records a container that was created.
    pub fn created(&mut self, id: &str, pid: u32)
        ensures
            final(self)@ == old(self)@.with_container(
                id@,
                Container { pid: Some(pid), exit_code: None, state: ContainerState::Created },
            ),
    {
        self.containers.insert(
            id.to_owned(),
            Container { pid: Some(pid), exit_code: None, state: ContainerState::Created },
        );
    }

    /// The arguments with which the container runtime starts a container; nothing where the
    /// container is not known.
    pub fn start(&self, id: &str) -> (res: Option<Vec<String>>)
        ensures
            match res {
                Some(args) => self@.containers.contains_key(id@) && text::strings(args@) == seq![
                    "run"@,
                    "--bundle"@,
                    bundle_dir(id@),
                    id@,
                ],
                None => !self@.containers.contains_key(id@),
            },
    {
        if !self.containers.contains_key(id) {
            return None;
        }
        let dir: String = bundle(id);
        let a: [&str; 4] = ["run", "--bundle", dir.as_str(), id];
        assert(text::strs(a@) =~= seq!["run"@, "--bundle"@, bundle_dir(id@), id@]);
        Some(text::owned(&a))
    }

    /// Records that a container runs, as this process; zero where it has none any more.
    pub fn started(&mut self, id: &str, pid: Option<u32>) -> (res: u32)
        ensures
            res == if pid is Some {
                pid->Some_0
            } else {
                0
            },
            final(self)@ == old(self)@.started(id@, res),
    {
        let pid: u32 = match pid {
            Some(p) => p,
            None => 0,
        };
        let old_entry: Option<Container> = match self.containers.get(id) {
            Some(c) => Some(*c),
            None => None,
        };
        if let Some(c) = old_entry {
            self.containers.insert(
                id.to_owned(),
                Container { pid: Some(pid), exit_code: c.exit_code, state: ContainerState::Running },
            );
        }
        pid
    }

    /// What to do about a signal for a container: nothing where it has stopped.
    pub fn kill(&self, id: &str, signal: u32) -> (res: KillAction)
        ensures
            match res {
                KillAction::Nothing => self@.containers.contains_key(id@) && self@.containers[id@].state
                    == ContainerState::Stopped,
                KillAction::Run(args) => !(self@.containers.contains_key(id@)
                    && self@.containers[id@].state == ContainerState::Stopped) && text::strings(
                    args@,
                ) == seq!["kill"@, id@, text::dec(signal as nat)],
            },
            kill_command(res) == self@.signal_command(id@, signal),
    {
        if let Some(c) = self.containers.get(id) {
            if let ContainerState::Stopped = c.state {
                return KillAction::Nothing;
            }
        }
        let n: String = text::decimal(signal as u64);
        let a: [&str; 3] = ["kill", id, n.as_str()];
        assert(text::strs(a@) =~= seq!["kill"@, id@, text::dec(signal as nat)]);
        KillAction::Run(text::owned(&a))
    }

    /// Forgets a container, and gives its process and exit code, zero where they are not known.
    pub fn delete(&mut self, id: &str) -> (res: (u32, i32))
        ensures
            final(self)@ == (ManagerView {
                containers: old(self)@.containers.remove(id@),
                ..old(self)@
            }),
            ({
                let known = old(self)@.containers.contains_key(id@);
                let c = old(self)@.containers[id@];
                &&& res.0 == if known && c.pid is Some {
                    c.pid->Some_0
                } else {
                    0
                }
                &&& res.1 == if known && c.exit_code is Some {
                    c.exit_code->Some_0
                } else {
                    0
                }
            }),
            final(self)@ == old(self)@.forgotten(id@),
            res == old(self)@.remains(id@),
    {
        let (pid, code) = match self.containers.get(id) {
            Some(c) => (
                match c.pid {
                    Some(p) => p,
                    None => 0,
                },
                match c.exit_code {
                    Some(e) => e,
                    None => 0,
                },
            ),
            None => (0, 0),
        };
        self.containers.remove(id);
        (pid, code)
    }

    /// Records that a container stopped.
    pub fn mark_stopped(&mut self, id: &str, code: i32)
        ensures
            final(self)@ == old(self)@.stopped(id@, code),
    {
        let old_entry: Option<Container> = match self.containers.get(id) {
            Some(c) => Some(*c),
            None => None,
        };
        if let Some(c) = old_entry {
            self.containers.insert(
                id.to_owned(),
                Container { pid: c.pid, exit_code: Some(code), state: ContainerState::Stopped },
            );
        }
    }

    /// Reports the state of a container.
    pub fn state(&self, id: &str) -> (res: StateReport)
        ensures
            ({
                let c = self@.containers[id@];
                if self@.containers.contains_key(id@) {
                    &&& res.state == Some(c.state)
                    &&& res.pid == if c.pid is Some {
                        c.pid->Some_0
                    } else {
                        0
                    }
                    &&& res.exit_status == if c.exit_code is Some {
                        unsigned32(c.exit_code->Some_0 as int)
                    } else {
                        0
                    }
                } else {
                    res == StateReport { state: None, pid: 0, exit_status: 0 }
                }
            }),
            res == self@.report(id@),
    {
        match self.containers.get(id) {
            Some(c) => StateReport {
                state: Some(c.state),
                pid: match c.pid {
                    Some(p) => p,
                    None => 0,
                },
                exit_status: match c.exit_code {
                    Some(e) => to_unsigned32(e),
                    None => 0,
                },
            },
            None => StateReport { state: None, pid: 0, exit_status: 0 },
        }
    }
}

/// The arguments with which the container runtime deletes a container.
pub fn delete_arguments(id: &str) -> (res: Vec<String>)
    ensures
        text::strings(res@) == seq!["delete"@, "--force"@, id@],
{
    let a: [&str; 3] = ["delete", "--force", id];
    assert(text::strs(a@) =~= seq!["delete"@, "--force"@, id@]);
    text::owned(&a)
}

/// Reads what the container runtime said when it was to send a signal: a container that is gone
/// is no error.
pub fn kill_outcome(success: bool, stderr: &[u8]) -> (res: Result<(), String>)
    ensures
        ({
            let said = text::lossy(stderr@);
            let fine = success || text::has_substring(said, "No such file"@)
                || text::has_substring(said, "not found"@);
            match res {
                Ok(()) => fine,
                Err(e) => !fine && e@ == said,
            }
        }),
        res is Ok <==> signal_delivered(success, text::lossy(stderr@)),
{
    let said: String = text::from_utf8_lossy(stderr);
    if success || text::contains(said.as_str(), "No such file") || text::contains(
        said.as_str(),
        "not found",
    ) {
        Ok(())
    } else {
        Err(said)
    }
}

/// The exit code of a container, from what waiting for its process gave: nothing where waiting
/// failed, and nothing inside where a signal ended it.
pub fn exit_code(status: Option<Option<i32>>) -> (res: i32)
    ensures
        res == match status {
            Some(Some(code)) => code,
            _ => KILLED,
        },
        res == code_of(status),
{
    match status {
        Some(Some(code)) => code,
        _ => KILLED,
    }
}

/// A disk is handed out once: it is known from then on.
pub proof fn law_disks_handed_out_once(m: ManagerView, current: Seq<Seq<char>>, d: Seq<char>)
    requires
        first_new(current, m.known) == Some(d),
    ensures
        !m.known.contains(d),
        current.contains(d),
        first_new(current, m.with_disk(d).known) != Some(d),
    decreases current.len(),
{
    lemma_first_new(current, m.known);
    lemma_first_new(current, m.with_disk(d).known);
}

proof fn lemma_first_new(current: Seq<Seq<char>>, known: Set<Seq<char>>)
    ensures
        match first_new(current, known) {
            Some(d) => current.contains(d) && !known.contains(d),
            None => forall|i: int| 0 <= i < current.len() ==> known.contains(#[trigger] current[i]),
        },
    decreases current.len(),
{
    if current.len() > 0 {
        lemma_first_new(current.skip(1), known);
        match first_new(current, known) {
            Some(d) => {
                if known.contains(current[0]) {
                    let k = choose|k: int| 0 <= k < current.skip(1).len() && current.skip(1)[k] == d;
                    assert(current[k + 1] == d);
                } else {
                    assert(current[0] == d);
                }
            },
            None => {
                assert forall|i: int| 0 <= i < current.len() implies known.contains(
                    #[trigger] current[i],
                ) by {
                    if i > 0 {
                        assert(current.skip(1)[i - 1] == current[i]);
                    }
                }
            },
        }
    }
}

/// A stopped container ignores signals, reports its exit code, and gives it once more when it is
/// deleted.
pub proof fn law_stopped_container(m: ManagerView, id: Seq<char>, code: i32)
    requires
        m.containers.contains_key(id),
    ensures
        m.stopped(id, code).containers[id].state == ContainerState::Stopped,
        m.stopped(id, code).containers[id].exit_code == Some(code),
        m.stopped(id, code).containers[id].pid == m.containers[id].pid,
        m.stopped(id, code).known == m.known,
        forall|other: Seq<char>|
            other != id && m.containers.contains_key(other) ==> (
            #[trigger] m.stopped(id, code).containers[other]) == m.containers[other],
{
}

/// The disk that is taken into use is the first of those there that is not known; there is none
/// exactly where all are known.
pub proof fn law_first_new(current: Seq<Seq<char>>, known: Set<Seq<char>>)
    ensures
        match first_new(current, known) {
            Some(d) => !known.contains(d) && exists|i: int|
                0 <= i < current.len() && #[trigger] current[i] == d && forall|k: int|
                    0 <= k < i ==> known.contains(#[trigger] current[k]),
            None => forall|i: int| 0 <= i < current.len() ==> known.contains(#[trigger] current[i]),
        },
    decreases current.len(),
{
    if current.len() > 0 {
        if known.contains(current[0]) {
            let rest = current.skip(1);
            law_first_new(rest, known);
            match first_new(rest, known) {
                Some(d) => {
                    let i = choose|i: int|
                        0 <= i < rest.len() && #[trigger] rest[i] == d && forall|k: int|
                            0 <= k < i ==> known.contains(#[trigger] rest[k]);
                    assert(current[i + 1] == d);
                    assert forall|k: int| 0 <= k < i + 1 implies known.contains(
                        #[trigger] current[k],
                    ) by {
                        if k > 0 {
                            assert(rest[k - 1] == current[k]);
                        }
                    }
                },
                None => {
                    assert forall|i: int| 0 <= i < current.len() implies known.contains(
                        #[trigger] current[i],
                    ) by {
                        if i > 0 {
                            assert(rest[i - 1] == current[i]);
                        }
                    }
                },
            }
        } else {
            assert(current[0] == first_new(current, known)->Some_0);
        }
    }
}

impl ManagerView {
    /// The command that sends a signal to a container; none where the container has stopped.
    pub open spec fn signal_command(self, id: Seq<char>, signal: u32) -> Option<Seq<Seq<char>>> {
        if self.containers.contains_key(id) && self.containers[id].state
            == ContainerState::Stopped {
            None
        } else {
            Some(seq!["kill"@, id, text::dec(signal as nat)])
        }
    }

    /// The state of a container, as it is reported.
    pub open spec fn report(self, id: Seq<char>) -> StateReport {
        if self.containers.contains_key(id) {
            let c = self.containers[id];
            StateReport {
                state: Some(c.state),
                pid: if c.pid is Some {
                    c.pid->Some_0
                } else {
                    0
                },
                exit_status: if c.exit_code is Some {
                    unsigned32(c.exit_code->Some_0 as int) as u32
                } else {
                    0
                },
            }
        } else {
            StateReport { state: None, pid: 0, exit_status: 0 }
        }
    }

    /// The manager without a container.
    pub open spec fn forgotten(self, id: Seq<char>) -> ManagerView {
        ManagerView { containers: self.containers.remove(id), ..self }
    }

    /// The process and the exit code of a container that is forgotten, zero where they are not
    /// known.
    pub open spec fn remains(self, id: Seq<char>) -> (u32, i32) {
        let known = self.containers.contains_key(id);
        let c = self.containers[id];
        (
            if known && c.pid is Some {
                c.pid->Some_0
            } else {
                0
            },
            if known && c.exit_code is Some {
                c.exit_code->Some_0
            } else {
                0
            },
        )
    }
}

/// The command of an action, where it is one.
pub open spec fn kill_command(a: KillAction) -> Option<Seq<Seq<char>>> {
    match a {
        KillAction::Nothing => None,
        KillAction::Run(args) => Some(text::strings(args@)),
    }
}

/// The exit code of a container, from what waiting for its process gave.
pub open spec fn code_of(status: Option<Option<i32>>) -> i32 {
    match status {
        Some(Some(code)) => code,
        _ => KILLED,
    }
}

/// Whether a signal reached a container, or the container was gone already.
pub open spec fn signal_delivered(success: bool, said: Seq<char>) -> bool {
    success || text::has_substring(said, "No such file"@) || text::has_substring(
        said,
        "not found"@,
    )
}

/// A signal goes to the container it is for, by its number, unless that container has stopped. That
/// holds of a container that was never seen too.
pub proof fn law_signals(m: ManagerView, id: Seq<char>, signal: u32, code: i32, pid: u32)
    ensures
        m.containers.contains_key(id) ==> m.stopped(id, code).signal_command(id, signal) is None,
        m.containers.contains_key(id) ==> m.started(id, pid).signal_command(id, signal) is Some,
        !m.containers.contains_key(id) ==> m.signal_command(id, signal) is Some,
        m.signal_command(id, signal) matches Some(a) ==> a.len() == 3 && a[0] == "kill"@ && a[1]
            == id && a[2] == text::dec(signal as nat),
{
}

/// What is reported of a container is what was last recorded: that it runs, as which process, and,
/// once it has stopped, its exit code. Nothing is reported of a container that was forgotten or
/// never known.
pub proof fn law_reports(m: ManagerView, id: Seq<char>, code: i32, pid: u32, other: Seq<char>)
    requires
        m.containers.contains_key(id),
    ensures
        m.started(id, pid).report(id).state == Some(ContainerState::Running),
        m.started(id, pid).report(id).pid == pid,
        m.stopped(id, code).report(id).state == Some(ContainerState::Stopped),
        code >= 0 ==> m.stopped(id, code).report(id).exit_status == code,
        code < 0 ==> m.stopped(id, code).report(id).exit_status == 4294967296 + code,
        m.started(id, pid).stopped(id, code).report(id).pid == pid,
        m.forgotten(id).report(id) == (StateReport { state: None, pid: 0, exit_status: 0 }),
        m.started(id, pid).stopped(id, code).remains(id) == (pid, code),
        m.forgotten(id).remains(id) == (0u32, 0i32),
        other != id ==> m.forgotten(id).report(other) == m.report(other) && m.started(
            id,
            pid,
        ).report(other) == m.report(other) && m.stopped(id, code).report(other) == m.report(other),
        m.forgotten(id).known == m.known && m.started(id, pid).known == m.known,
{
}

/// A container ends with the code of its process, and with that of a killed process where there is
/// none: a signal ended it, or nobody knows.
pub proof fn law_exit_codes(code: i32)
    ensures
        code_of(Some(Some(code))) == code,
        code_of(Some(None)) == 128 + 9,
        code_of(None) == 128 + 9,
{
}

/// Sending a signal is no error where it succeeded, or where the runtime said that the container is
/// not there; it is one where it failed and the runtime said nothing of the kind.
pub proof fn law_signal_errors(said: Seq<char>, a: Seq<char>, b: Seq<char>)
    ensures
        signal_delivered(true, said),
        signal_delivered(false, a + "not found"@ + b),
        signal_delivered(false, a + "No such file"@ + b),
        !signal_delivered(false, Seq::empty()),
        signal_delivered(false, said) ==> text::has_substring(said, "not found"@)
            || text::has_substring(said, "No such file"@),
{
    reveal_strlit("not found");
    reveal_strlit("No such file");
    let n = a.len() as int;
    let x = a + "not found"@ + b;
    assert(x.subrange(n, n + 9) =~= "not found"@);
    assert(text::occurs_at(x, "not found"@, n));
    let y = a + "No such file"@ + b;
    assert(y.subrange(n, n + 12) =~= "No such file"@);
    assert(text::occurs_at(y, "No such file"@, n));
    let none = Seq::<char>::empty();
    if text::has_substring(none, "not found"@) {
        let at = choose|at: int| #[trigger] text::occurs_at(none, "not found"@, at);
        assert(text::occurs_at(none, "not found"@, at));
    }
    if text::has_substring(none, "No such file"@) {
        let at = choose|at: int| #[trigger] text::occurs_at(none, "No such file"@, at);
        assert(text::occurs_at(none, "No such file"@, at));
    }
}

/// The disks that are looked at are the virtio disks among the block devices, in order.
pub proof fn law_virtio_disks(names: Seq<Seq<char>>) -> (from: Seq<int>)
    ensures
        from.len() == virtio_disks(names).len(),
        forall|i: int|
            0 <= i < from.len() ==> 0 <= #[trigger] from[i] < names.len() && names[from[i]].len()
                >= 2 && names[from[i]][0] == 'v' && names[from[i]][1] == 'd' && virtio_disks(
                names,
            )[i] == names[from[i]],
        forall|i: int, j: int| 0 <= i < j < from.len() ==> #[trigger] from[i] < #[trigger] from[j],
        forall|k: int|
            0 <= k < names.len() && (#[trigger] names[k]).len() >= 2 && names[k][0] == 'v'
                && names[k][1] == 'd' ==> exists|i: int|
                0 <= i < from.len() && #[trigger] from[i] == k,
    decreases names.len(),
{
    reveal_strlit("vd");
    if names.len() == 0 {
        Seq::empty()
    } else {
        let most = names.drop_last();
        let n = names.len() - 1;
        let before = law_virtio_disks(most);
        let name = names.last();
        if name.len() >= 2 {
            assert(name.subrange(0, 2)[0] == name[0] && name.subrange(0, 2)[1] == name[1]);
            if name[0] == 'v' && name[1] == 'd' {
                assert(name.subrange(0, 2) =~= "vd"@);
            }
        }
        let res = if text::has_prefix(name, "vd"@) {
            before.push(n)
        } else {
            before
        };
        assert forall|i: int| 0 <= i < res.len() implies 0 <= #[trigger] res[i] < names.len()
            && names[res[i]].len() >= 2 && names[res[i]][0] == 'v' && names[res[i]][1] == 'd'
            && virtio_disks(names)[i] == names[res[i]] by {
            if i < before.len() {
                assert(res[i] == before[i]);
                assert(most[before[i]] == names[res[i]]);
            } else {
                assert("vd"@.len() == 2);
                assert(name.subrange(0, 2)[0] == "vd"@[0] && name.subrange(0, 2)[1] == "vd"@[1]);
            }
        }
        assert forall|k: int|
            0 <= k < names.len() && (#[trigger] names[k]).len() >= 2 && names[k][0] == 'v'
                && names[k][1] == 'd' implies exists|i: int|
            0 <= i < res.len() && #[trigger] res[i] == k by {
            if k < n {
                assert(most[k] == names[k]);
                let i = choose|i: int| 0 <= i < before.len() && #[trigger] before[i] == k;
                assert(res[i] == k);
            } else {
                assert(res[before.len() as int] == n);
            }
        }
        res
    }
}

/// The bundle of a container stands below the directory of all bundles, under the container's name,
/// and the device of a disk below the directory of devices.
pub proof fn law_guest_paths(id: Seq<char>, disk: Seq<char>)
    requires
        id.len() == 0 || id[0] != '/',
    ensures
        bundle_dir(id) == "/run/containers/"@ + id,
        device_path(disk) == "/dev/"@ + disk,
{
    reveal_strlit("/run/containers");
    reveal_strlit("/run/containers/");
    assert("/run/containers"@.push('/') =~= "/run/containers/"@);
    assert("/run/containers"@.last() == 's');
}

} // verus!
