//! The golden snapshot: a booted VM on disk, from which others are restored.

use crate::json;
use crate::json::{Json, JsonView};
use crate::paths;
use crate::text;
use crate::types::{RuntimeConfig, RuntimeConfigView, VmNet};
use crate::vm;
use crate::vm::ApiRequest;
use vstd::prelude::*;

verus! {

/// The directory of the golden snapshot, in the state directory.
pub const SNAPSHOT_SUBDIR: &'static str = "golden-snapshot";

/// The name of the VM of which the golden snapshot is taken.
pub const GOLDEN_VM_ID: &'static str = "golden-snapshot-vm";

/// The step at which making the golden snapshot stands.
#[derive(Debug, Clone, Copy, PartialEq, Eq, Structural)]
pub enum GoldenStep {
    /// Remove what an earlier attempt left behind. What comes of it does not matter.
    RemoveDir,
    CreateDir,
    PrepareVm,
    SpawnVmm,
    WaitVmm,
    BootVm,
    WaitAgent,
    /// Ask the agent whether it is ready: the step succeeds where it says so.
    CheckHealth,
    /// Pause the VM and write the snapshot.
    Snapshot,
    /// Shut the VM down: the files are enough.
    Cleanup,
    Done,
    Failed,
}

/// The step that follows one, by whether that succeeded.
pub open spec fn next_step(s: GoldenStep, ok: bool) -> GoldenStep {
    if !ok && s != GoldenStep::RemoveDir && s != GoldenStep::Done {
        GoldenStep::Failed
    } else {
        match s {
            GoldenStep::RemoveDir => GoldenStep::CreateDir,
            GoldenStep::CreateDir => GoldenStep::PrepareVm,
            GoldenStep::PrepareVm => GoldenStep::SpawnVmm,
            GoldenStep::SpawnVmm => GoldenStep::WaitVmm,
            GoldenStep::WaitVmm => GoldenStep::BootVm,
            GoldenStep::BootVm => GoldenStep::WaitAgent,
            GoldenStep::WaitAgent => GoldenStep::CheckHealth,
            GoldenStep::CheckHealth => GoldenStep::Snapshot,
            GoldenStep::Snapshot => GoldenStep::Cleanup,
            GoldenStep::Cleanup => GoldenStep::Done,
            GoldenStep::Done => GoldenStep::Done,
            GoldenStep::Failed => GoldenStep::Failed,
        }
    }
}

/// Manages creation and restoration of golden VM snapshots.
#[derive(Debug)]
pub struct SnapshotManager {
    config: RuntimeConfig,
    snapshot_dir: String,
    ready: bool,
}

/// What a snapshot manager knows.
pub struct SnapshotView {
    pub dir: Seq<char>,
    pub ready: bool,
    /// The configuration of the VMs.
    pub config: RuntimeConfigView,
}

impl View for SnapshotManager {
    type V = SnapshotView;

    closed spec fn view(&self) -> SnapshotView {
        SnapshotView { dir: self.snapshot_dir@, ready: self.ready, config: self.config@ }
    }
}

/// The directory of the golden snapshot.
pub open spec fn snapshot_dir_spec() -> Seq<char> {
    paths::joined(crate::RUNTIME_STATE_DIR@, SNAPSHOT_SUBDIR@)
}

/// The file whose presence shows that a golden snapshot is there.
pub fn state_file() -> (res: String)
    ensures
        res@ == paths::joined(snapshot_dir_spec(), "state.json"@),
{
    let dir: String = paths::join(crate::RUNTIME_STATE_DIR, SNAPSHOT_SUBDIR);
    paths::join(dir.as_str(), "state.json")
}

impl SnapshotManager {
    /// A snapshot manager. `state_present` says whether [`state_file`] exists.
    pub fn new(config: RuntimeConfig, state_present: bool) -> (res: Self)
        ensures
            res@ == (SnapshotView {
                dir: snapshot_dir_spec(),
                ready: state_present,
                config: config@,
            }),
    {
        let snapshot_dir: String = paths::join(crate::RUNTIME_STATE_DIR, SNAPSHOT_SUBDIR);
        SnapshotManager { config, snapshot_dir, ready: state_present }
    }

    /// Whether a golden snapshot is available for restore.
    pub fn is_ready(&self) -> (res: bool)
        ensures
            res == self@.ready,
    {
        self.ready
    }

    /// The directory of the golden snapshot.
    pub fn snapshot_dir(&self) -> (res: &str)
        ensures
            res@ == self@.dir,
    {
        self.snapshot_dir.as_str()
    }

    /// The configuration of the VMs.
    pub fn config(&self) -> (res: &RuntimeConfig)
        ensures
            res@ == self@.config,
    {
        &self.config
    }

    /// The first step of making the golden snapshot; none is needed where there is one.
    pub fn ensure_golden_snapshot(&self) -> (res: GoldenStep)
        ensures
            res == if self@.ready {
                GoldenStep::Done
            } else {
                GoldenStep::RemoveDir
            },
    {
        if self.ready {
            GoldenStep::Done
        } else {
            GoldenStep::RemoveDir
        }
    }

    /// Takes in whether a step succeeded, and says which comes next. With the last one the
    /// snapshot becomes available.
    pub fn golden_step(&mut self, step: GoldenStep, ok: bool) -> (res: GoldenStep)
        ensures
            res == next_step(step, ok),
            final(self)@ == (SnapshotView {
                ready: old(self)@.ready || res == GoldenStep::Done,
                ..old(self)@
            }),
            final(self)@ == old(self)@.stepped(step, ok),
    {
        let next: GoldenStep = if !ok && step != GoldenStep::RemoveDir && step != GoldenStep::Done {
            GoldenStep::Failed
        } else {
            match step {
                GoldenStep::RemoveDir => GoldenStep::CreateDir,
                GoldenStep::CreateDir => GoldenStep::PrepareVm,
                GoldenStep::PrepareVm => GoldenStep::SpawnVmm,
                GoldenStep::SpawnVmm => GoldenStep::WaitVmm,
                GoldenStep::WaitVmm => GoldenStep::BootVm,
                GoldenStep::BootVm => GoldenStep::WaitAgent,
                GoldenStep::WaitAgent => GoldenStep::CheckHealth,
                GoldenStep::CheckHealth => GoldenStep::Snapshot,
                GoldenStep::Snapshot => GoldenStep::Cleanup,
                GoldenStep::Cleanup => GoldenStep::Done,
                GoldenStep::Done => GoldenStep::Done,
                GoldenStep::Failed => GoldenStep::Failed,
            }
        };
        if let GoldenStep::Done = next {
            self.ready = true;
        }
        next
    }

    /// Forgets the golden snapshot, whose files were removed.
    pub fn cleanup(&mut self)
        ensures
            final(self)@ == (SnapshotView { ready: false, ..old(self)@ }),
    {
        self.ready = false;
    }

    /// Starts restoring a VM from the golden snapshot; without one that fails.
    pub fn restore_vm(&self, vm_id: &str) -> (res: RestoreRun)
        ensures
            res@ == self@.restoring(vm_id@, None),
    {
        self.restore(vm_id, None)
    }

    /// Starts restoring a VM that gets a network device. A snapshot holds none, so it is plugged in
    /// once the VM runs.
    pub fn restore_vm_with_net(&self, vm_id: &str, net: VmNet) -> (res: RestoreRun)
        ensures
            res@ == self@.restoring(vm_id@, Some(net.text())),
    {
        self.restore(vm_id, Some(net))
    }

    fn restore(&self, vm_id: &str, net: Option<VmNet>) -> (res: RestoreRun)
        ensures
            res@ == self@.restoring(vm_id@, net_text(net)),
    {
        let config: String = String::new();
        assert(config@ =~= Seq::<char>::empty());
        RestoreRun {
            snapshot_dir: self.snapshot_dir.clone(),
            vm_id: vm_id.to_owned(),
            config,
            net,
            phase: if self.ready {
                RestorePhase::CreateDir
            } else {
                RestorePhase::Failed(RestoreError::NoSnapshot, false)
            },
        }
    }
}

/// The text that describes a network device, where there is one.
pub open spec fn net_text(net: Option<VmNet>) -> Option<Seq<char>> {
    match net {
        Some(n) => Some(n.text()),
        None => None,
    }
}

impl SnapshotView {
    /// A restore that has just begun, or cannot begin.
    pub open spec fn restoring(self, vm_id: Seq<char>, net: Option<Seq<char>>) -> RestoreView {
        RestoreView {
            snapshot_dir: self.dir,
            vm_id,
            config: Seq::empty(),
            net,
            phase: if self.ready {
                RestorePhase::CreateDir
            } else {
                RestorePhase::Failed(RestoreError::NoSnapshot, false)
            },
        }
    }
}

/// A document with another vsock socket: only an entry that is there is replaced.
pub open spec fn with_vsock_socket(doc: JsonView, socket: Seq<char>) -> JsonView {
    match doc {
        JsonView::Object(m) => if m.contains_key("vsock"@) {
            match m["vsock"@] {
                JsonView::Object(v) => if v.contains_key("socket"@) {
                    JsonView::Object(
                        m.insert(
                            "vsock"@,
                            JsonView::Object(v.insert("socket"@, JsonView::Text(socket))),
                        ),
                    )
                } else {
                    doc
                },
                _ => doc,
            }
        } else {
            doc
        },
        _ => doc,
    }
}

/// Puts another vsock socket into a VM's configuration.
pub fn rewrite_vsock(doc: Json, socket: &str) -> (res: Json)
    ensures
        res@ == with_vsock_socket(doc@, socket@),
{
    match doc {
        Json::Object(v) => {
            let mut v: Vec<(String, Json)> = v;
            let ghost m = json::entries(v@);
            match json::take(&mut v, "vsock") {
                Some(Json::Object(w)) => {
                    let mut w: Vec<(String, Json)> = w;
                    let ghost n = json::entries(w@);
                    match json::take(&mut w, "socket") {
                        Some(_) => {
                            json::put(&mut w, "socket", json::json_text(socket));
                            assert(json::entries(w@) =~= n.insert(
                                "socket"@,
                                JsonView::Text(socket@),
                            ));
                        },
                        None => {
                            assert(json::entries(w@) =~= n);
                        },
                    }
                    json::put(&mut v, "vsock", Json::Object(w));
                    assert(json::entries(v@) =~= m.insert("vsock"@, JsonView::Object(json::entries(w@))));
                    assert(!n.contains_key("socket"@) ==> json::entries(v@) =~= m);
                },
                Some(other) => {
                    let ghost ov = other@;
                    json::put(&mut v, "vsock", other);
                    assert(json::entries(v@) =~= m);
                },
                None => {
                    assert(json::entries(v@) =~= m);
                },
            }
            Json::Object(v)
        },
        other => other,
    }
}

/// The configuration with which a VM is restored: that of the golden VM, with the socket of the
/// restored one. There is none where the golden configuration is no JSON document.
pub fn instance_config(golden: &str, socket: &str) -> (res: Option<String>)
    ensures
        text::opt_string(res) == match json::parsed(golden@) {
            Some(doc) => Some(json::pretty(with_vsock_socket(doc, socket@))),
            None => None,
        },
{
    match json::parse(golden) {
        Some(doc) => Some(json::to_text_pretty(rewrite_vsock(doc, socket))),
        None => None,
    }
}

/// Why a restore failed.
#[derive(Debug, Clone, Copy, PartialEq, Eq, Structural)]
pub enum RestoreError {
    /// There is no golden snapshot.
    NoSnapshot,
    /// The directory for the instance's copy could not be made.
    CreateDir,
    /// The golden configuration could not be read.
    ReadConfig,
    /// The golden configuration is no JSON document.
    ParseConfig,
    /// The instance's configuration could not be written.
    WriteConfig,
    /// A file of the snapshot could not be linked.
    Link,
    /// The hypervisor could not be started.
    Spawn,
    /// The hypervisor's socket did not appear.
    NoSocket,
    /// The hypervisor refused to restore, or took too long.
    Restore,
    /// The hypervisor refused to resume.
    Resume,
    /// The network device could not be plugged in.
    AddNet,
}

/// How far a restore has come.
#[derive(Debug, Clone, Copy, PartialEq, Eq, Structural)]
pub enum RestorePhase {
    CreateDir,
    ReadConfig,
    WriteConfig,
    /// One of the two large files is being linked.
    Link(u32),
    Spawn,
    /// The hypervisor's socket is being looked for; so many attempts came before.
    Socket(u32),
    SocketPause(u32),
    Restore,
    Resume,
    AddNet,
    Done,
    /// The restore failed; the flag says whether the hypervisor is to be killed.
    Failed(RestoreError, bool),
}

/// How often the hypervisor's socket is looked for.
pub const SOCKET_ATTEMPTS: u32 = 500;

/// The pause between two looks, in milliseconds.
pub const SOCKET_PAUSE_MS: u64 = 5;

/// How long a restore may take, in seconds.
pub const RESTORE_TIMEOUT_SECS: u64 = 120;

/// What to do next.
#[derive(Debug)]
pub enum RestoreAction {
    /// Make this directory.
    CreateDir(String),
    /// Read this file.
    ReadFile(String),
    /// Write this file with this content.
    WriteFile(String, String),
    /// Link to the first of these, where it exists, under the name of the second.
    Link(String, String),
    /// Start the hypervisor with this API socket.
    Spawn(String),
    /// See whether this socket exists.
    CheckSocket(String),
    /// Wait so many milliseconds.
    Sleep(u64),
    /// Send this request, and wait so many seconds for the reply.
    Request(ApiRequest, u64),
    /// Nothing: the VM runs.
    Done,
    /// Nothing, but to kill the hypervisor where the flag is set: the restore failed.
    Fail(RestoreError, bool),
}

/// What came of an action.
#[derive(Debug)]
pub enum RestoreEvent {
    /// Whether it succeeded.
    Outcome(bool),
    /// What the file holds; nothing where it could not be read.
    Read(Option<String>),
    Slept,
}

/// A restore under way.
#[derive(Debug)]
pub struct RestoreRun {
    snapshot_dir: String,
    vm_id: String,
    config: String,
    net: Option<VmNet>,
    phase: RestorePhase,
}

/// The state of a restore.
pub struct RestoreView {
    pub snapshot_dir: Seq<char>,
    pub vm_id: Seq<char>,
    pub config: Seq<char>,
    /// The network device that the VM gets, where it gets one.
    pub net: Option<Seq<char>>,
    pub phase: RestorePhase,
}

impl View for RestoreRun {
    type V = RestoreView;

    closed spec fn view(&self) -> RestoreView {
        RestoreView {
            snapshot_dir: self.snapshot_dir@,
            vm_id: self.vm_id@,
            config: self.config@,
            net: net_text(self.net),
            phase: self.phase,
        }
    }
}

/// The name of one of the files that are linked instead of copied.
pub open spec fn linked_file(i: u32) -> Seq<char> {
    if i == 0 {
        "state.json"@
    } else {
        "memory-ranges"@
    }
}

impl RestoreView {
    /// The directory with all files of the VM.
    pub open spec fn state_dir(self) -> Seq<char> {
        paths::joined(crate::RUNTIME_STATE_DIR@, self.vm_id)
    }

    /// The API socket of the VM.
    pub open spec fn api_socket(self) -> Seq<char> {
        paths::joined(self.state_dir(), "api.sock"@)
    }

    /// The vsock socket of the VM.
    pub open spec fn vsock_socket(self) -> Seq<char> {
        paths::joined(self.state_dir(), "vsock.sock"@)
    }

    /// The directory with the VM's copy of the snapshot.
    pub open spec fn instance_dir(self) -> Seq<char> {
        paths::joined(self.state_dir(), "snapshot"@)
    }

    pub open spec fn to(self, phase: RestorePhase) -> RestoreView {
        RestoreView { phase, ..self }
    }

    /// Whether `a` is what the restore asks for in its phase.
    pub open spec fn asks(self, a: RestoreAction) -> bool {
        match self.phase {
            RestorePhase::CreateDir => a matches RestoreAction::CreateDir(d) && d@
                == self.instance_dir(),
            RestorePhase::ReadConfig => a matches RestoreAction::ReadFile(f) && f@
                == paths::joined(self.snapshot_dir, "config.json"@),
            RestorePhase::WriteConfig => a matches RestoreAction::WriteFile(f, c) && f@
                == paths::joined(self.instance_dir(), "config.json"@) && c@ == self.config,
            RestorePhase::Link(i) => a matches RestoreAction::Link(from, to) && from@
                == paths::joined(self.snapshot_dir, linked_file(i)) && to@ == paths::joined(
                self.instance_dir(),
                linked_file(i),
            ),
            RestorePhase::Spawn => a matches RestoreAction::Spawn(s) && s@ == self.api_socket(),
            RestorePhase::Socket(_) => a matches RestoreAction::CheckSocket(s) && s@
                == self.api_socket(),
            RestorePhase::SocketPause(_) => a == RestoreAction::Sleep(SOCKET_PAUSE_MS),
            RestorePhase::Restore => a matches RestoreAction::Request(r, secs) && secs
                == RESTORE_TIMEOUT_SECS && vm::document_request(
                r,
                "/api/v1/vm.restore"@,
                vm::single("source_url"@, "file://"@ + self.instance_dir()),
            ),
            RestorePhase::Resume => a matches RestoreAction::Request(r, secs) && secs == 30
                && vm::bare_request(r, "/api/v1/vm.resume"@),
            RestorePhase::AddNet => a matches RestoreAction::Request(r, secs) && secs == 30
                && self.net is Some && vm::text_request(
                r,
                "/api/v1/vm.add-net"@,
                self.net->Some_0,
            ),
            RestorePhase::Done => a == RestoreAction::Done,
            RestorePhase::Failed(e, kill) => a == RestoreAction::Fail(e, kill),
        }
    }

    /// The state after the golden configuration was read and taken apart.
    pub open spec fn with_config(self, config: Option<Seq<char>>) -> RestoreView {
        match config {
            Some(config) => RestoreView { config, phase: RestorePhase::WriteConfig, ..self },
            None => self.to(RestorePhase::Failed(RestoreError::ParseConfig, false)),
        }
    }

    /// The state after an event. Once the hypervisor runs, every failure asks for it to be
    /// killed. An event that is not waited for changes nothing.
    pub open spec fn after(self, event: RestoreEvent) -> RestoreView {
        match (self.phase, event) {
            (RestorePhase::CreateDir, RestoreEvent::Outcome(ok)) => self.to(
                if ok {
                    RestorePhase::ReadConfig
                } else {
                    RestorePhase::Failed(RestoreError::CreateDir, false)
                },
            ),
            (RestorePhase::ReadConfig, RestoreEvent::Read(data)) => match data {
                Some(d) => self.with_config(
                    match json::parsed(d@) {
                        Some(doc) => Some(
                            json::pretty(with_vsock_socket(doc, self.vsock_socket())),
                        ),
                        None => None,
                    },
                ),
                None => self.to(RestorePhase::Failed(RestoreError::ReadConfig, false)),
            },
            (RestorePhase::WriteConfig, RestoreEvent::Outcome(ok)) => self.to(
                if ok {
                    RestorePhase::Link(0)
                } else {
                    RestorePhase::Failed(RestoreError::WriteConfig, false)
                },
            ),
            (RestorePhase::Link(i), RestoreEvent::Outcome(ok)) => self.to(
                if !ok {
                    RestorePhase::Failed(RestoreError::Link, false)
                } else if i == 0 {
                    RestorePhase::Link(1)
                } else {
                    RestorePhase::Spawn
                },
            ),
            (RestorePhase::Spawn, RestoreEvent::Outcome(ok)) => self.to(
                if ok {
                    RestorePhase::Socket(0)
                } else {
                    RestorePhase::Failed(RestoreError::Spawn, false)
                },
            ),
            (RestorePhase::Socket(n), RestoreEvent::Outcome(there)) => self.to(
                if there {
                    RestorePhase::Restore
                } else if n < SOCKET_ATTEMPTS {
                    RestorePhase::SocketPause(n)
                } else {
                    RestorePhase::Failed(RestoreError::NoSocket, true)
                },
            ),
            (RestorePhase::SocketPause(n), RestoreEvent::Slept) => self.to(
                RestorePhase::Socket((n + 1) as u32),
            ),
            (RestorePhase::Restore, RestoreEvent::Outcome(ok)) => self.to(
                if ok {
                    RestorePhase::Resume
                } else {
                    RestorePhase::Failed(RestoreError::Restore, true)
                },
            ),
            (RestorePhase::Resume, RestoreEvent::Outcome(ok)) => self.to(
                if !ok {
                    RestorePhase::Failed(RestoreError::Resume, true)
                } else if self.net is Some {
                    RestorePhase::AddNet
                } else {
                    RestorePhase::Done
                },
            ),
            (RestorePhase::AddNet, RestoreEvent::Outcome(ok)) => self.to(
                if ok {
                    RestorePhase::Done
                } else {
                    RestorePhase::Failed(RestoreError::AddNet, true)
                },
            ),
            _ => self,
        }
    }

    /// Looks for the socket are bounded.
    pub open spec fn wf(self) -> bool {
        match self.phase {
            RestorePhase::Socket(n) => n <= SOCKET_ATTEMPTS,
            RestorePhase::SocketPause(n) => n < SOCKET_ATTEMPTS,
            RestorePhase::Link(i) => i < 2,
            RestorePhase::AddNet => self.net is Some,
            _ => true,
        }
    }

    /// Whether the hypervisor has been started and not been given up.
    pub open spec fn hypervisor_runs(self) -> bool {
        match self.phase {
            RestorePhase::Socket(_) => true,
            RestorePhase::SocketPause(_) => true,
            RestorePhase::Restore => true,
            RestorePhase::Resume => true,
            RestorePhase::AddNet => true,
            RestorePhase::Done => true,
            _ => false,
        }
    }
}

impl RestoreRun {
    fn state_dir_text(&self) -> (res: String)
        ensures
            res@ == self@.state_dir(),
    {
        paths::join(crate::RUNTIME_STATE_DIR, self.vm_id.as_str())
    }

    fn in_state_dir(&self, name: &str) -> (res: String)
        ensures
            res@ == paths::joined(self@.state_dir(), name@),
    {
        let dir: String = self.state_dir_text();
        paths::join(dir.as_str(), name)
    }

    fn in_instance_dir(&self, name: &str) -> (res: String)
        ensures
            res@ == paths::joined(self@.instance_dir(), name@),
    {
        let dir: String = self.in_state_dir("snapshot");
        paths::join(dir.as_str(), name)
    }

    /// The directory with all files of the VM.
    pub fn state_dir(&self) -> (res: String)
        ensures
            res@ == self@.state_dir(),
    {
        self.state_dir_text()
    }

    /// The API socket of the VM.
    pub fn api_socket(&self) -> (res: String)
        ensures
            res@ == self@.api_socket(),
    {
        self.in_state_dir("api.sock")
    }

    /// The vsock socket of the VM.
    pub fn vsock_socket(&self) -> (res: String)
        ensures
            res@ == self@.vsock_socket(),
    {
        self.in_state_dir("vsock.sock")
    }

    /// What to do next.
    pub fn action(&self) -> (res: RestoreAction)
        requires
            self@.wf(),
        ensures
            self@.asks(res),
    {
        match self.phase {
            RestorePhase::CreateDir => RestoreAction::CreateDir(self.in_state_dir("snapshot")),
            RestorePhase::ReadConfig => RestoreAction::ReadFile(
                paths::join(self.snapshot_dir.as_str(), "config.json"),
            ),
            RestorePhase::WriteConfig => RestoreAction::WriteFile(
                self.in_instance_dir("config.json"),
                self.config.clone(),
            ),
            RestorePhase::Link(i) => {
                let name: &str = if i == 0 {
                    "state.json"
                } else {
                    "memory-ranges"
                };
                RestoreAction::Link(
                    paths::join(self.snapshot_dir.as_str(), name),
                    self.in_instance_dir(name),
                )
            },
            RestorePhase::Spawn => RestoreAction::Spawn(self.api_socket()),
            RestorePhase::Socket(_) => RestoreAction::CheckSocket(self.api_socket()),
            RestorePhase::SocketPause(_) => RestoreAction::Sleep(SOCKET_PAUSE_MS),
            RestorePhase::Restore => {
                let dir: String = self.in_state_dir("snapshot");
                RestoreAction::Request(vm::restore_request(dir.as_str()), RESTORE_TIMEOUT_SECS)
            },
            RestorePhase::Resume => RestoreAction::Request(vm::resume_request(), 30),
            RestorePhase::AddNet => match &self.net {
                Some(n) => RestoreAction::Request(vm::add_net_request(n), 30),
                None => vstd::pervasive::unreached(),
            },
            RestorePhase::Done => RestoreAction::Done,
            RestorePhase::Failed(e, kill) => RestoreAction::Fail(e, kill),
        }
    }

    /// Takes in the configuration for the restored VM.
    pub fn config_ready(&mut self, config: Option<String>)
        ensures
            final(self)@ == old(self)@.with_config(text::opt_string(config)),
    {
        match config {
            Some(c) => {
                self.config = c;
                self.phase = RestorePhase::WriteConfig;
            },
            None => {
                self.phase = RestorePhase::Failed(RestoreError::ParseConfig, false);
            },
        }
    }

    /// Takes in what came of the last action.
    pub fn step(&mut self, event: RestoreEvent)
        requires
            old(self)@.wf(),
        ensures
            final(self)@.wf(),
            final(self)@ == old(self)@.after(event),
    {
        match (self.phase, event) {
            (RestorePhase::CreateDir, RestoreEvent::Outcome(ok)) => {
                self.phase = if ok {
                    RestorePhase::ReadConfig
                } else {
                    RestorePhase::Failed(RestoreError::CreateDir, false)
                };
            },
            (RestorePhase::ReadConfig, RestoreEvent::Read(data)) => {
                match data {
                    Some(d) => {
                        let socket: String = self.vsock_socket();
                        let config: Option<String> = instance_config(d.as_str(), socket.as_str());
                        self.config_ready(config);
                    },
                    None => {
                        self.phase = RestorePhase::Failed(RestoreError::ReadConfig, false);
                    },
                }
            },
            (RestorePhase::WriteConfig, RestoreEvent::Outcome(ok)) => {
                self.phase = if ok {
                    RestorePhase::Link(0)
                } else {
                    RestorePhase::Failed(RestoreError::WriteConfig, false)
                };
            },
            (RestorePhase::Link(i), RestoreEvent::Outcome(ok)) => {
                self.phase = if !ok {
                    RestorePhase::Failed(RestoreError::Link, false)
                } else if i == 0 {
                    RestorePhase::Link(1)
                } else {
                    RestorePhase::Spawn
                };
            },
            (RestorePhase::Spawn, RestoreEvent::Outcome(ok)) => {
                self.phase = if ok {
                    RestorePhase::Socket(0)
                } else {
                    RestorePhase::Failed(RestoreError::Spawn, false)
                };
            },
            (RestorePhase::Socket(n), RestoreEvent::Outcome(there)) => {
                self.phase = if there {
                    RestorePhase::Restore
                } else if n < SOCKET_ATTEMPTS {
                    RestorePhase::SocketPause(n)
                } else {
                    RestorePhase::Failed(RestoreError::NoSocket, true)
                };
            },
            (RestorePhase::SocketPause(n), RestoreEvent::Slept) => {
                self.phase = RestorePhase::Socket(n + 1);
            },
            (RestorePhase::Restore, RestoreEvent::Outcome(ok)) => {
                self.phase = if ok {
                    RestorePhase::Resume
                } else {
                    RestorePhase::Failed(RestoreError::Restore, true)
                };
            },
            (RestorePhase::Resume, RestoreEvent::Outcome(ok)) => {
                self.phase = if !ok {
                    RestorePhase::Failed(RestoreError::Resume, true)
                } else if self.net.is_some() {
                    RestorePhase::AddNet
                } else {
                    RestorePhase::Done
                };
            },
            (RestorePhase::AddNet, RestoreEvent::Outcome(ok)) => {
                self.phase = if ok {
                    RestorePhase::Done
                } else {
                    RestorePhase::Failed(RestoreError::AddNet, true)
                };
            },
            _ => {},
        }
    }
}

/// A hypervisor that was started is never forgotten: it keeps running, or is to be killed.
pub proof fn law_restore_kills_hypervisor(r: RestoreView, event: RestoreEvent)
    requires
        r.hypervisor_runs(),
    ensures
        r.after(event).hypervisor_runs() || (r.after(event).phase matches RestorePhase::Failed(
            _,
            kill,
        ) && kill),
{
}

/// Before the hypervisor is started there is nothing to kill.
pub proof fn law_restore_kills_nothing_else(r: RestoreView, event: RestoreEvent)
    requires
        !r.hypervisor_runs(),
        !(r.phase is Failed),
    ensures
        r.after(event).phase matches RestorePhase::Failed(_, kill) ==> !kill,
{
}

/// A restored VM that is to have a network has it once the restore is done: the only way there is
/// a device that was plugged in.
pub proof fn law_restored_vm_has_its_network(r: RestoreView, event: RestoreEvent)
    requires
        r.net is Some,
        !(r.phase is Done),
    ensures
        r.after(event).net == r.net,
        r.after(event).phase is Done ==> r.phase is AddNet && event == RestoreEvent::Outcome(true),
{
}

/// The snapshot becomes available only after every step succeeded.
pub proof fn law_golden_needs_every_step(s: GoldenStep, ok: bool)
    requires
        s != GoldenStep::Done,
    ensures
        next_step(s, ok) == GoldenStep::Done ==> s == GoldenStep::Cleanup && ok,
        s != GoldenStep::RemoveDir && !ok ==> next_step(s, ok) == GoldenStep::Failed,
{
}

/// A restored VM listens on a socket of its own, and nothing else of its configuration changes.
pub proof fn law_only_vsock_socket_changes(doc: JsonView, socket: Seq<char>, key: Seq<char>)
    requires
        key != "vsock"@,
    ensures
        with_vsock_socket(doc, socket).field(key) == doc.field(key),
{
}

/// An instance is restored with a vsock socket of its own: where the configuration of the golden VM
/// names a socket, that of the instance names its own there, and nothing else of the vsock device
/// changes.
pub proof fn law_instance_has_own_socket(
    doc: JsonView,
    v: JsonView,
    socket: Seq<char>,
    key: Seq<char>,
)
    requires
        doc.field("vsock"@) == Some(v),
        v.field("socket"@) is Some,
    ensures
        with_vsock_socket(doc, socket).field("vsock"@) matches Some(w) && w.field("socket"@)
            == Some(JsonView::Text(socket)) && (key != "socket"@ ==> w.field(key) == v.field(key)),
{
}

/// What is read as the golden configuration is written for the instance with the socket of the
/// instance in it; a configuration that is no document fails the restore.
pub proof fn law_instance_config(r: RestoreView, golden: String, a: RestoreAction)
    requires
        r.phase == RestorePhase::ReadConfig,
        r.after(RestoreEvent::Read(Some(golden))).asks(a),
    ensures
        match json::parsed(golden@) {
            Some(doc) => a matches RestoreAction::WriteFile(f, c) && f@ == paths::joined(
                paths::joined(r.state_dir(), "snapshot"@),
                "config.json"@,
            ) && exists|d: JsonView|
                c@ == #[trigger] json::pretty(d) && (doc.field("vsock"@) matches Some(v) ==> v.field(
                    "socket"@,
                ) is Some ==> (d.field("vsock"@) matches Some(w) && w.field("socket"@) == Some(
                    JsonView::Text(paths::joined(r.state_dir(), "vsock.sock"@)),
                ))) && (forall|key: Seq<char>|
                    key != "vsock"@ ==> #[trigger] d.field(key) == doc.field(key)),
            None => a == RestoreAction::Fail(RestoreError::ParseConfig, false),
        },
{
    if let Some(doc) = json::parsed(golden@) {
        let d = with_vsock_socket(doc, r.vsock_socket());
        assert(a is WriteFile);
        assert(a->WriteFile_1@ == json::pretty(d));
        if let Some(v) = doc.field("vsock"@) {
            if v.field("socket"@) is Some {
                law_instance_has_own_socket(doc, v, r.vsock_socket(), "socket"@);
            }
        }
        assert forall|key: Seq<char>| key != "vsock"@ implies #[trigger] d.field(key) == doc.field(
            key,
        ) by {
            law_only_vsock_socket_changes(doc, r.vsock_socket(), key);
        }
    }
}

/// The large files of the golden snapshot are linked into the directory of the instance under their
/// own names, the state first and then the memory; the hypervisor restores from that directory.
pub proof fn law_restore_from_instance(r: RestoreView, a: RestoreAction)
    requires
        r.wf(),
        r.asks(a),
    ensures
        r.phase == RestorePhase::Link(0) ==> (a matches RestoreAction::Link(from, to) && from@
            == paths::joined(r.snapshot_dir, "state.json"@) && to@ == paths::joined(
            r.instance_dir(),
            "state.json"@,
        )),
        r.phase == RestorePhase::Link(1) ==> (a matches RestoreAction::Link(from, to) && from@
            == paths::joined(r.snapshot_dir, "memory-ranges"@) && to@ == paths::joined(
            r.instance_dir(),
            "memory-ranges"@,
        )),
        r.phase == RestorePhase::ReadConfig ==> (a matches RestoreAction::ReadFile(f) && f@
            == paths::joined(r.snapshot_dir, "config.json"@)),
        r.phase == RestorePhase::Restore ==> (a matches RestoreAction::Request(q, secs) && secs
            == 120 && q.path@ == "/api/v1/vm.restore"@ && exists|d: JsonView|
            text::opt_string(q.body) == Some(#[trigger] json::compact(d)) && d.field("source_url"@)
                == Some(JsonView::Text("file://"@ + r.instance_dir()))),
        r.phase == RestorePhase::Resume ==> (a matches RestoreAction::Request(q, secs) && secs == 30
            && q.path@ == "/api/v1/vm.resume"@ && q.body is None),
        r.phase == RestorePhase::AddNet ==> (a matches RestoreAction::Request(q, secs) && secs == 30
            && q.path@ == "/api/v1/vm.add-net"@ && text::opt_string(q.body) == r.net),
        r.phase == RestorePhase::Spawn ==> (a matches RestoreAction::Spawn(s) && s@
            == paths::joined(r.state_dir(), "api.sock"@)),
        r.phase is Socket ==> (a matches RestoreAction::CheckSocket(s) && s@ == paths::joined(
            r.state_dir(),
            "api.sock"@,
        )),
        r.state_dir() == paths::joined("/run/cloudhv"@, r.vm_id),
{
    if r.phase == RestorePhase::Restore {
        let d = vm::single("source_url"@, "file://"@ + r.instance_dir());
        assert(a is Request);
        assert(text::opt_string(a->Request_0.body) == Some(json::compact(d)));
        assert(d.field("source_url"@) == Some(JsonView::Text("file://"@ + r.instance_dir())));
    }
}

/// A restore goes through its steps in order, and a step that fails fails it with what the step was
/// about. Without a golden snapshot it fails at once.
pub proof fn law_restore_steps(s: SnapshotView, r: RestoreView, n: u32, id: Seq<char>)
    ensures
        !s.ready ==> s.restoring(id, r.net).phase == RestorePhase::Failed(
            RestoreError::NoSnapshot,
            false,
        ),
        s.ready ==> s.restoring(id, r.net).phase == RestorePhase::CreateDir && s.restoring(
            id,
            r.net,
        ).net == r.net && s.restoring(id, r.net).vm_id == id && s.restoring(id, r.net).snapshot_dir
            == s.dir,
        r.phase == RestorePhase::CreateDir ==> r.after(RestoreEvent::Outcome(true)).phase
            == RestorePhase::ReadConfig && r.after(RestoreEvent::Outcome(false)).phase
            == RestorePhase::Failed(RestoreError::CreateDir, false),
        r.phase == RestorePhase::ReadConfig ==> r.after(RestoreEvent::Read(None)).phase
            == RestorePhase::Failed(RestoreError::ReadConfig, false),
        r.phase == RestorePhase::WriteConfig ==> r.after(RestoreEvent::Outcome(true)).phase
            == RestorePhase::Link(0) && r.after(RestoreEvent::Outcome(false)).phase
            == RestorePhase::Failed(RestoreError::WriteConfig, false),
        r.phase == RestorePhase::Link(0) ==> r.after(RestoreEvent::Outcome(true)).phase
            == RestorePhase::Link(1),
        r.phase == RestorePhase::Link(1) ==> r.after(RestoreEvent::Outcome(true)).phase
            == RestorePhase::Spawn,
        r.phase is Link ==> r.after(RestoreEvent::Outcome(false)).phase == RestorePhase::Failed(
            RestoreError::Link,
            false,
        ),
        r.phase == RestorePhase::Spawn ==> r.after(RestoreEvent::Outcome(true)).phase
            == RestorePhase::Socket(0) && r.after(RestoreEvent::Outcome(false)).phase
            == RestorePhase::Failed(RestoreError::Spawn, false),
        r.phase == RestorePhase::Socket(n) ==> r.after(RestoreEvent::Outcome(true)).phase
            == RestorePhase::Restore,
        r.phase == RestorePhase::Socket(n) && n < 500 ==> r.after(
            RestoreEvent::Outcome(false),
        ).asks(RestoreAction::Sleep(5)) && r.after(RestoreEvent::Outcome(false)).after(
            RestoreEvent::Slept,
        ).phase == RestorePhase::Socket((n + 1) as u32),
        r.phase == RestorePhase::Socket(500) ==> r.after(RestoreEvent::Outcome(false)).phase
            == RestorePhase::Failed(RestoreError::NoSocket, true),
        r.phase == RestorePhase::Restore ==> r.after(RestoreEvent::Outcome(true)).phase
            == RestorePhase::Resume && r.after(RestoreEvent::Outcome(false)).phase
            == RestorePhase::Failed(RestoreError::Restore, true),
        r.phase == RestorePhase::Resume ==> r.after(RestoreEvent::Outcome(true)).phase
            == if r.net is Some {
            RestorePhase::AddNet
        } else {
            RestorePhase::Done
        } && r.after(RestoreEvent::Outcome(false)).phase == RestorePhase::Failed(
            RestoreError::Resume,
            true,
        ),
        r.phase == RestorePhase::AddNet ==> r.after(RestoreEvent::Outcome(true)).phase
            == RestorePhase::Done && r.after(RestoreEvent::Outcome(false)).phase
            == RestorePhase::Failed(RestoreError::AddNet, true),
{
}

/// A golden snapshot is written of a VM that was booted and whose agent said it was healthy: every
/// step follows from the one in front of it, and only where that succeeded.
pub proof fn law_golden_order(s: GoldenStep, ok: bool)
    ensures
        next_step(s, ok) == GoldenStep::Snapshot ==> s == GoldenStep::CheckHealth && ok,
        next_step(s, ok) == GoldenStep::CheckHealth ==> s == GoldenStep::WaitAgent && ok,
        next_step(s, ok) == GoldenStep::WaitAgent ==> s == GoldenStep::BootVm && ok,
        next_step(s, ok) == GoldenStep::BootVm ==> s == GoldenStep::WaitVmm && ok,
        next_step(s, ok) == GoldenStep::WaitVmm ==> s == GoldenStep::SpawnVmm && ok,
        next_step(s, ok) == GoldenStep::SpawnVmm ==> s == GoldenStep::PrepareVm && ok,
        next_step(s, ok) == GoldenStep::PrepareVm ==> s == GoldenStep::CreateDir && ok,
        next_step(s, ok) == GoldenStep::CreateDir ==> s == GoldenStep::RemoveDir,
        next_step(s, ok) == GoldenStep::Cleanup ==> s == GoldenStep::Snapshot && ok,
        next_step(GoldenStep::RemoveDir, ok) == GoldenStep::CreateDir,
        ok && s != GoldenStep::Failed ==> next_step(s, ok) != GoldenStep::Failed,
        ok && s != GoldenStep::Failed && s != GoldenStep::Done ==> next_step(s, ok) != s,
{
}

impl SnapshotView {
    /// The manager after a step towards the golden snapshot.
    pub open spec fn stepped(self, step: GoldenStep, ok: bool) -> SnapshotView {
        SnapshotView { ready: self.ready || next_step(step, ok) == GoldenStep::Done, ..self }
    }
}

/// A golden snapshot counts as ready once its last step has succeeded and not before, and stays so.
pub proof fn law_ready_after_last_step(s: SnapshotView, step: GoldenStep, ok: bool)
    requires
        step != GoldenStep::Done,
    ensures
        s.ready ==> s.stepped(step, ok).ready,
        !s.ready ==> (s.stepped(step, ok).ready <==> step == GoldenStep::Cleanup && ok),
        s.stepped(step, ok).dir == s.dir && s.stepped(step, ok).config == s.config,
{
}

/// The golden snapshot stands in a directory of its own below the state of the runtime.
pub proof fn law_golden_directory()
    ensures
        snapshot_dir_spec() == "/run/cloudhv/golden-snapshot"@,
        GOLDEN_VM_ID@ != SNAPSHOT_SUBDIR@,
{
    reveal_strlit("/run/cloudhv");
    reveal_strlit("golden-snapshot");
    reveal_strlit("golden-snapshot-vm");
    reveal_strlit("/run/cloudhv/golden-snapshot");
    assert("/run/cloudhv"@.last() == 'v' && "golden-snapshot"@[0] == 'g');
    assert("/run/cloudhv"@.push('/') + "golden-snapshot"@ =~= "/run/cloudhv/golden-snapshot"@);
    assert(GOLDEN_VM_ID@.len() != SNAPSHOT_SUBDIR@.len());
}

/// A restore makes the directory of the instance first, and tells its end: that it is done, or why it
/// is not and whether a hypervisor is to be killed.
pub proof fn law_restore_asks(r: RestoreView, a: RestoreAction)
    requires
        r.asks(a),
    ensures
        r.phase == RestorePhase::CreateDir ==> (a matches RestoreAction::CreateDir(d) && d@
            == paths::joined(r.state_dir(), "snapshot"@)),
        r.phase == RestorePhase::Done <==> a == RestoreAction::Done,
        r.phase matches RestorePhase::Failed(e, kill) ==> a == RestoreAction::Fail(e, kill),
{
}

} // verus!
