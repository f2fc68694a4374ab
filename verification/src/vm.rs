//! One Cloud Hypervisor VM: its names and paths, its configuration, and the requests and commands
//! that run it.

use crate::http;
use crate::json;
use crate::json::{Json, JsonView};
use crate::memory::MemoryMonitorConfig;
use crate::paths;
use crate::text;
use crate::types::{
    RuntimeConfig, RuntimeConfigView, SnapshotConfig, VmBalloon, VmConfig, VmConsoleConfig, VmCpus,
    VmDisk, VmFs, VmMemory, VmNet, VmPayload, VmTpm, VmVsock,
};
use vstd::prelude::*;

verus! {

/// Hands out vsock CIDs, each to one VM.
#[derive(Debug)]
pub struct CidAllocator {
    next: u64,
}

impl CidAllocator {
    /// The CID that comes next.
    pub closed spec fn upcoming(&self) -> u64 {
        self.next
    }

    /// An allocator that has handed out none.
    pub fn new() -> (res: Self)
        ensures
            res.upcoming() == crate::GUEST_CID_START,
    {
        CidAllocator { next: crate::GUEST_CID_START }
    }

    /// Hands out the next CID.
    pub fn allocate_cid(&mut self) -> (res: u64)
        ensures
            res == old(self).upcoming(),
            final(self).upcoming() == old(self).upcoming().wrapping_add(1),
    {
        let cid: u64 = self.next;
        self.next = self.next.wrapping_add(1);
        cid
    }
}

/// The CID handed out by the allocation with this number.
pub open spec fn nth_cid(n: nat) -> u64
    decreases n,
{
    if n == 0 {
        crate::GUEST_CID_START
    } else {
        nth_cid((n - 1) as nat).wrapping_add(1)
    }
}

/// No two of the first allocations give the same CID, and none gives one of the reserved CIDs
/// below the first guest's.
pub proof fn law_cids_unique(a: nat, b: nat)
    requires
        a < b,
        b + crate::GUEST_CID_START <= u64::MAX,
    ensures
        nth_cid(a) != nth_cid(b),
        nth_cid(a) >= crate::GUEST_CID_START,
{
    lemma_nth_cid(a);
    lemma_nth_cid(b);
}

proof fn lemma_nth_cid(n: nat)
    requires
        n + crate::GUEST_CID_START <= u64::MAX,
    ensures
        nth_cid(n) == n + crate::GUEST_CID_START,
    decreases n,
{
    if n > 0 {
        lemma_nth_cid((n - 1) as nat);
    }
}

/// A VM.
#[derive(Debug)]
pub struct VmManager {
    vm_id: String,
    cid: u64,
    state_dir: String,
    api_socket: String,
    vsock_socket: String,
    virtiofsd_socket: String,
    shared_dir: String,
    tpm_socket: String,
    config: RuntimeConfig,
}

/// What a VM is: its name, its CID and its configuration. All paths follow from the name.
pub struct VmView {
    pub vm_id: Seq<char>,
    pub cid: u64,
    pub config: RuntimeConfigView,
}

impl VmView {
    /// The directory with all files of the VM.
    pub open spec fn state_dir(self) -> Seq<char> {
        paths::joined(crate::RUNTIME_STATE_DIR@, self.vm_id)
    }

    /// A file in that directory.
    pub open spec fn file(self, name: Seq<char>) -> Seq<char> {
        paths::joined(self.state_dir(), name)
    }
}

impl View for VmManager {
    type V = VmView;

    closed spec fn view(&self) -> VmView {
        VmView { vm_id: self.vm_id@, cid: self.cid, config: self.config@ }
    }
}

/// A program and its arguments.
#[derive(Debug)]
pub struct Invocation {
    pub program: String,
    pub args: Vec<String>,
}

/// A request to Cloud Hypervisor's API.
#[derive(Debug)]
pub struct ApiRequest {
    pub path: String,
    pub body: Option<String>,
}

impl ApiRequest {
    /// The text of the request: all requests are `PUT`.
    pub fn to_text(&self) -> (res: String)
        ensures
            res@ == http::request("PUT"@, self.path@, text::opt_string(self.body)),
    {
        match &self.body {
            Some(b) => http::request_text("PUT", self.path.as_str(), Some(b.as_str())),
            None => http::request_text("PUT", self.path.as_str(), None),
        }
    }
}

/// How a VM is brought up.
#[derive(Debug)]
pub struct BootPlan {
    pub config: VmConfig,
    pub create: ApiRequest,
    pub boot: ApiRequest,
}

/// Whether `r` is the request to a path without a body.
pub open spec fn bare_request(r: ApiRequest, path: Seq<char>) -> bool {
    r.path@ == path && r.body is None
}

/// Whether `r` is the request to a path with a document as its body.
pub open spec fn document_request(r: ApiRequest, path: Seq<char>, doc: JsonView) -> bool {
    r.path@ == path && text::opt_string(r.body) == Some(json::compact(doc))
}

/// Whether `r` is the request to a path with a text as its body.
pub open spec fn text_request(r: ApiRequest, path: Seq<char>, body: Seq<char>) -> bool {
    r.path@ == path && text::opt_string(r.body) == Some(body)
}

fn bare(path: &str) -> (res: ApiRequest)
    ensures
        bare_request(res, path@),
{
    ApiRequest { path: path.to_owned(), body: None }
}

fn with_document(path: &str, doc: Json) -> (res: ApiRequest)
    ensures
        document_request(res, path@, doc@),
{
    ApiRequest { path: path.to_owned(), body: Some(json::to_text(doc)) }
}

fn with_text(path: &str, body: String) -> (res: ApiRequest)
    ensures
        text_request(res, path@, body@),
{
    ApiRequest { path: path.to_owned(), body: Some(body) }
}

/// Asks for the VM to be booted.
pub fn boot_request() -> (res: ApiRequest)
    ensures
        bare_request(res, "/api/v1/vm.boot"@),
{
    bare("/api/v1/vm.boot")
}

/// Asks for the VM to be shut down.
pub fn shutdown_request() -> (res: ApiRequest)
    ensures
        bare_request(res, "/api/v1/vm.shutdown"@),
{
    bare("/api/v1/vm.shutdown")
}

/// Asks for the VM to be paused.
pub fn pause_request() -> (res: ApiRequest)
    ensures
        bare_request(res, "/api/v1/vm.pause"@),
{
    bare("/api/v1/vm.pause")
}

/// Asks for a paused or restored VM to go on.
pub fn resume_request() -> (res: ApiRequest)
    ensures
        bare_request(res, "/api/v1/vm.resume"@),
{
    bare("/api/v1/vm.resume")
}

/// The document that names one text.
pub open spec fn single(key: Seq<char>, value: Seq<char>) -> JsonView {
    JsonView::Object(Map::empty().insert(key, JsonView::Text(value)))
}

/// Asks for a snapshot into a directory.
pub fn snapshot_request(dir: &str) -> (res: ApiRequest)
    ensures
        document_request(
            res,
            "/api/v1/vm.snapshot"@,
            single("destination_url"@, "file://"@ + dir@),
        ),
{
    let config: SnapshotConfig = SnapshotConfig { destination_url: text::join2("file://", dir) };
    with_document("/api/v1/vm.snapshot", config.to_json())
}

/// Asks for a VM to be restored from a directory.
pub fn restore_request(dir: &str) -> (res: ApiRequest)
    ensures
        document_request(
            res,
            "/api/v1/vm.restore"@,
            single("source_url"@, "file://"@ + dir@),
        ),
{
    let mut v: Vec<(String, Json)> = Vec::new();
    json::put(&mut v, "source_url", json::json_text(text::join2("file://", dir).as_str()));
    with_document("/api/v1/vm.restore", Json::Object(v))
}

/// The document that describes a disk.
pub open spec fn disk_document(path: Seq<char>, id: Seq<char>, readonly: bool) -> JsonView {
    JsonView::Object(
        Map::empty().insert("path"@, JsonView::Text(path)).insert(
            "readonly"@,
            JsonView::Bool(readonly),
        ).insert("id"@, JsonView::Text(id)),
    )
}

/// The text that describes a disk, its fields in order.
pub open spec fn disk_text(path: Seq<char>, id: Seq<char>, readonly: bool) -> Seq<char> {
    let m = Seq::<Seq<char>>::empty();
    let m = m.push(json::member("path"@, json::compact(JsonView::Text(path))));
    let m = m.push(json::member("readonly"@, json::compact(JsonView::Bool(readonly))));
    let m = m.push(json::member("id"@, json::compact(JsonView::Text(id))));
    json::object_text(m)
}

/// Asks for a disk to be plugged in.
pub fn add_disk_request(path: &str, disk_id: &str, readonly: bool) -> (res: ApiRequest)
    ensures
        document_request(
            res,
            "/api/v1/vm.add-disk"@,
            disk_document(path@, disk_id@, readonly),
        ),
{
    let disk: VmDisk = VmDisk { path: path.to_owned(), readonly, id: Some(disk_id.to_owned()) };
    assert(disk.document() == disk_document(path@, disk_id@, readonly));
    with_document("/api/v1/vm.add-disk", disk.to_json())
}

/// Asks for a network device to be plugged in.
pub fn add_net_request(net: &VmNet) -> (res: ApiRequest)
    ensures
        text_request(res, "/api/v1/vm.add-net"@, net.text()),
{
    with_text("/api/v1/vm.add-net", net.to_text())
}

/// The document that asks for vCPUs and memory.
pub open spec fn resize_document(vcpus: Option<u32>, memory: Option<u64>) -> Map<
    Seq<char>,
    JsonView,
> {
    let m = json::with_opt(
        Map::empty(),
        "desired_vcpus"@,
        match vcpus {
            Some(n) => Some(JsonView::Integer(n as int)),
            None => None,
        },
    );
    json::with_opt(
        m,
        "desired_ram"@,
        match memory {
            Some(n) => Some(JsonView::Integer(n as int)),
            None => None,
        },
    )
}

/// Asks for other numbers of vCPUs or bytes of memory; nothing is asked where neither is given.
pub fn resize_request(vcpus: Option<u32>, memory: Option<u64>) -> (res: Option<ApiRequest>)
    ensures
        match res {
            Some(r) => (vcpus is Some || memory is Some) && document_request(
                r,
                "/api/v1/vm.resize"@,
                JsonView::Object(resize_document(vcpus, memory)),
            ),
            None => vcpus is None && memory is None,
        },
{
    if vcpus.is_none() && memory.is_none() {
        return None;
    }
    let mut v: Vec<(String, Json)> = Vec::new();
    if let Some(n) = vcpus {
        json::put(&mut v, "desired_vcpus", Json::Unsigned(n as u64));
    }
    if let Some(n) = memory {
        json::put(&mut v, "desired_ram", Json::Unsigned(n));
    }
    Some(with_document("/api/v1/vm.resize", Json::Object(v)))
}

/// Whether boot and hotplug memory, in bytes, fit in 64 bits.
pub open spec fn memory_fits(c: RuntimeConfigView) -> bool {
    (c.default_memory_mb + c.hotplug_memory_mb) * 1048576 <= u64::MAX
}

/// Decides [`memory_fits`].
pub fn check_memory(config: &RuntimeConfig) -> (res: bool)
    ensures
        res == memory_fits(config@),
{
    let mb: u128 = config.default_memory_mb as u128 + config.hotplug_memory_mb as u128;
    mb * 1048576 <= u64::MAX as u128
}

/// The most vCPUs the VM may be given: never fewer than it boots with.
pub open spec fn max_vcpus_spec(boot: u32, most: Option<u32>) -> u32 {
    match most {
        Some(n) => if n > boot {
            n
        } else {
            boot
        },
        None => boot,
    }
}

/// What a VM is created with, besides its devices.
pub open spec fn base_config(v: VmView, most_vcpus: Option<u32>, c: VmConfig) -> bool {
    &&& c.payload.kernel@ == v.config.kernel_path
    &&& text::opt_string(c.payload.cmdline) == Some(v.config.kernel_args)
    &&& c.payload.initramfs is None
    &&& c.cpus.boot_vcpus == v.config.default_vcpus
    &&& c.cpus.max_vcpus == max_vcpus_spec(v.config.default_vcpus, most_vcpus)
    &&& c.memory.size == v.config.default_memory_mb * 1048576
    &&& c.memory.shared
    &&& c.memory.hotplug_size == if v.config.hotplug_memory_mb > 0 {
        Some((v.config.hotplug_memory_mb * 1048576) as u64)
    } else {
        None
    }
    &&& text::opt_string(c.memory.hotplug_method) == if v.config.hotplug_method == "virtio-mem"@ {
        Some("VirtioMem"@)
    } else {
        None
    }
    &&& c.vsock matches Some(x) && x.cid == v.cid && x.socket@ == v.file("vsock.sock"@)
    &&& c.serial matches Some(x) && x.mode@ == "File"@ && text::opt_string(x.file) == Some(
        v.file("console.log"@),
    )
    &&& c.console matches Some(x) && x.mode@ == "Off"@ && x.file is None
    &&& match c.balloon {
        Some(b) => v.config.hotplug_memory_mb > 0 && b.size == 0 && b.free_page_reporting,
        None => v.config.hotplug_memory_mb == 0,
    }
    &&& match c.tpm {
        Some(t) => v.config.tpm_enabled && t.socket@ == v.file("tpm.sock"@),
        None => !v.config.tpm_enabled,
    }
}

/// Whether the disks of a VM are its rootfs, writable, followed by `extra`.
pub open spec fn disks_are(v: VmView, disks: Seq<VmDisk>, extra: Seq<VmDisk>) -> bool {
    &&& disks.len() == 1 + extra.len()
    &&& disks[0].path@ == v.config.rootfs_path
    &&& !disks[0].readonly
    &&& disks[0].id is None
    &&& disks.skip(1) == extra
}

/// Whether the network devices of a VM are one at a TAP device, or none without one.
pub open spec fn net_is(net: Seq<VmNet>, tap: Option<Seq<char>>, mac: Option<Seq<char>>) -> bool {
    match tap {
        Some(t) => net.len() == 1 && net[0].tap@ == t && text::opt_string(net[0].mac) == mac,
        None => net.len() == 0,
    }
}

/// Whether the shares of a VM are the one for its shared directory.
pub open spec fn share_is(v: VmView, fs: Seq<VmFs>) -> bool {
    &&& fs.len() == 1
    &&& fs[0].tag@ == crate::VIRTIOFS_TAG@
    &&& fs[0].socket@ == v.file("virtiofsd.sock"@)
    &&& fs[0].num_queues == 1
    &&& fs[0].queue_size == 128
}

/// How often the hypervisor's socket is looked for.
pub const VMM_LOOKS: u32 = 500;

/// How often the TPM emulator's socket is looked for.
pub const TPM_LOOKS: u32 = 20;

/// The pause between two looks for the TPM emulator's socket, in milliseconds.
pub const TPM_PAUSE_MS: u64 = 100;

/// How often virtiofsd's socket is looked for.
pub const VIRTIOFSD_LOOKS: u32 = 200;

/// The pause between two looks for a socket, in milliseconds.
pub const SOCKET_PAUSE_MS: u64 = 5;

/// The pause between two looks whether the agent answers, in milliseconds.
pub const AGENT_PAUSE_MS: u64 = 10;

/// What follows a look for something that another process is to bring up.
#[derive(Debug, Clone, Copy, PartialEq, Eq, Structural)]
pub enum SocketWait {
    Ready,
    /// Wait so many milliseconds, and look again.
    Pause(u64),
    GiveUp,
}

/// What follows a look for a socket. It is looked for a number of times, with a pause after each
/// look, the last one too.
pub open spec fn waiting(look: nat, present: bool, looks: nat, pause_ms: u64) -> SocketWait {
    if look >= looks {
        SocketWait::GiveUp
    } else if present {
        SocketWait::Ready
    } else {
        SocketWait::Pause(pause_ms)
    }
}

fn wait_for_socket(look: u32, present: bool, looks: u32, pause_ms: u64) -> (res: SocketWait)
    ensures
        res == waiting(look as nat, present, looks as nat, pause_ms),
{
    if look >= looks {
        SocketWait::GiveUp
    } else if present {
        SocketWait::Ready
    } else {
        SocketWait::Pause(pause_ms)
    }
}

impl VmManager {
    /// The paths are those that follow from the name.
    pub closed spec fn wf(&self) -> bool {
        &&& self.state_dir@ == self@.state_dir()
        &&& self.api_socket@ == self@.file("api.sock"@)
        &&& self.vsock_socket@ == self@.file("vsock.sock"@)
        &&& self.virtiofsd_socket@ == self@.file("virtiofsd.sock"@)
        &&& self.shared_dir@ == self@.file("shared"@)
        &&& self.tpm_socket@ == self@.file("tpm.sock"@)
    }

    /// A VM that has not been started, with a CID of its own.
    pub fn new(vm_id: String, config: RuntimeConfig, cids: &mut CidAllocator) -> (res: Self)
        ensures
            res.wf(),
            res@ == (VmView { vm_id: vm_id@, cid: old(cids).upcoming(), config: config@ }),
            final(cids).upcoming() == old(cids).upcoming().wrapping_add(1),
    {
        let cid: u64 = cids.allocate_cid();
        let state_dir: String = paths::join(crate::RUNTIME_STATE_DIR, vm_id.as_str());
        let api_socket: String = paths::join(state_dir.as_str(), "api.sock");
        let vsock_socket: String = paths::join(state_dir.as_str(), "vsock.sock");
        let virtiofsd_socket: String = paths::join(state_dir.as_str(), "virtiofsd.sock");
        let shared_dir: String = paths::join(state_dir.as_str(), "shared");
        let tpm_socket: String = paths::join(state_dir.as_str(), "tpm.sock");
        VmManager {
            vm_id,
            cid,
            state_dir,
            api_socket,
            vsock_socket,
            virtiofsd_socket,
            shared_dir,
            tpm_socket,
            config,
        }
    }

    fn base(&self, most_vcpus: Option<u32>) -> (res: VmConfig)
        requires
            self.wf(),
            memory_fits(self@.config),
        ensures
            base_config(self@, most_vcpus, res),
            disks_are(self@, res.disks@, Seq::empty()),
            res.net@.len() == 0,
            res.fs@.len() == 0,
    {
        let boot: u32 = self.config.default_vcpus;
        let max_vcpus: u32 = match most_vcpus {
            Some(n) => if n > boot {
                n
            } else {
                boot
            },
            None => boot,
        };
        let hotplug: u64 = self.config.hotplug_memory_mb;
        let mut disks: Vec<VmDisk> = Vec::new();
        disks.push(VmDisk { path: self.config.rootfs_path.clone(), readonly: false, id: None });
        assert(disks@.skip(1) =~= Seq::<VmDisk>::empty());
        let console: String = paths::join(self.state_dir.as_str(), "console.log");
        VmConfig {
            payload: VmPayload {
                kernel: self.config.kernel_path.clone(),
                cmdline: Some(self.config.kernel_args.clone()),
                initramfs: None,
            },
            cpus: VmCpus { boot_vcpus: boot, max_vcpus },
            memory: VmMemory {
                size: self.config.default_memory_mb * 1048576,
                shared: true,
                hotplug_size: if hotplug > 0 {
                    Some(hotplug * 1048576)
                } else {
                    None
                },
                hotplug_method: if text::same(self.config.hotplug_method.as_str(), "virtio-mem") {
                    Some("VirtioMem".to_owned())
                } else {
                    None
                },
            },
            disks,
            net: Vec::new(),
            fs: Vec::new(),
            vsock: Some(VmVsock { cid: self.cid, socket: self.vsock_socket.clone() }),
            serial: Some(VmConsoleConfig::file(console.as_str())),
            console: Some(VmConsoleConfig::off()),
            balloon: if hotplug > 0 {
                Some(VmBalloon { size: 0, free_page_reporting: true })
            } else {
                None
            },
            tpm: if self.config.tpm_enabled {
                Some(VmTpm { socket: self.tpm_socket.clone() })
            } else {
                None
            },
        }
    }

    /// The configuration to create the VM with. `extra_disks` are attached behind the rootfs;
    /// `most_vcpus` is the most vCPUs the VM may be given, where that is known.
    pub fn vm_config(
        &self,
        tap_device: Option<&str>,
        tap_mac: Option<&str>,
        extra_disks: Vec<VmDisk>,
        most_vcpus: Option<u32>,
    ) -> (res: VmConfig)
        requires
            self.wf(),
            memory_fits(self@.config),
        ensures
            base_config(self@, most_vcpus, res),
            disks_are(self@, res.disks@, extra_disks@),
            net_is(res.net@, text::opt_str(tap_device), text::opt_str(tap_mac)),
            share_is(self@, res.fs@),
    {
        let mut c: VmConfig = self.base(most_vcpus);
        let mut extra: Vec<VmDisk> = extra_disks;
        let ghost first = c.disks@;
        c.disks.append(&mut extra);
        assert(c.disks@ =~= first + extra_disks@);
        assert(c.disks@.skip(1) =~= extra_disks@);
        if let Some(tap) = tap_device {
            let mac: Option<String> = match tap_mac {
                Some(m) => Some(m.to_owned()),
                None => None,
            };
            c.net.push(VmNet { tap: tap.to_owned(), mac });
        }
        c.fs.push(
            VmFs {
                tag: crate::VIRTIOFS_TAG.to_owned(),
                socket: self.virtiofsd_socket.clone(),
                num_queues: 1,
                queue_size: 128,
            },
        );
        c
    }

    /// The configuration for a VM of which a snapshot is to be taken: without a network and
    /// without a share, whose state could not be restored.
    pub fn snapshot_vm_config(&self, most_vcpus: Option<u32>) -> (res: VmConfig)
        requires
            self.wf(),
            memory_fits(self@.config),
        ensures
            base_config(self@, most_vcpus, res),
            disks_are(self@, res.disks@, Seq::empty()),
            res.net@.len() == 0,
            res.fs@.len() == 0,
    {
        self.base(most_vcpus)
    }

    /// The configuration of the VM, and the requests that create and boot it, to be sent in order.
    pub fn create_and_boot_vm(
        &self,
        tap_device: Option<&str>,
        tap_mac: Option<&str>,
        extra_disks: Vec<VmDisk>,
        most_vcpus: Option<u32>,
    ) -> (res: BootPlan)
        requires
            self.wf(),
            memory_fits(self@.config),
        ensures
            base_config(self@, most_vcpus, res.config),
            disks_are(self@, res.config.disks@, extra_disks@),
            net_is(res.config.net@, text::opt_str(tap_device), text::opt_str(tap_mac)),
            share_is(self@, res.config.fs@),
            text_request(res.create, "/api/v1/vm.create"@, res.config.text()),
            bare_request(res.boot, "/api/v1/vm.boot"@),
    {
        let config: VmConfig = self.vm_config(tap_device, tap_mac, extra_disks, most_vcpus);
        let create: ApiRequest = create_request(&config);
        BootPlan { config, create, boot: boot_request() }
    }

    /// Asks for a disk to be plugged in.
    pub fn add_disk(&self, path: &str, disk_id: &str, readonly: bool) -> (res: ApiRequest)
        ensures
            text_request(res, "/api/v1/vm.add-disk"@, disk_text(path@, disk_id@, readonly)),
    {
        let disk: VmDisk = VmDisk { path: path.to_owned(), readonly, id: Some(disk_id.to_owned()) };
        assert(disk.text() == disk_text(path@, disk_id@, readonly));
        with_text("/api/v1/vm.add-disk", disk.to_text())
    }

    /// Asks for other numbers of vCPUs or bytes of memory, where either is given.
    pub fn resize(&self, vcpus: Option<u32>, memory: Option<u64>) -> (res: Option<ApiRequest>)
        ensures
            match res {
                Some(r) => (vcpus is Some || memory is Some) && document_request(
                    r,
                    "/api/v1/vm.resize"@,
                    JsonView::Object(resize_document(vcpus, memory)),
                ),
                None => vcpus is None && memory is None,
            },
    {
        resize_request(vcpus, memory)
    }

    /// The request that shuts the VM down, where the hypervisor's socket exists. Whatever comes
    /// of it, the VM's processes are killed afterwards.
    pub fn shutdown(&self, socket_present: bool) -> (res: Option<ApiRequest>)
        ensures
            match res {
                Some(r) => socket_present && bare_request(r, "/api/v1/vm.shutdown"@),
                None => !socket_present,
            },
    {
        if socket_present {
            Some(shutdown_request())
        } else {
            None
        }
    }

    /// What follows a look for the hypervisor's socket. The looks count from zero.
    pub fn wait_vmm_ready(&self, look: u32, present: bool) -> (res: SocketWait)
        ensures
            res == waiting(look as nat, present, VMM_LOOKS as nat, SOCKET_PAUSE_MS),
    {
        wait_for_socket(look, present, VMM_LOOKS, SOCKET_PAUSE_MS)
    }

    /// What follows a look for the TPM emulator's socket. The looks count from zero.
    pub fn wait_tpm_ready(&self, look: u32, present: bool) -> (res: SocketWait)
        ensures
            res == waiting(look as nat, present, TPM_LOOKS as nat, TPM_PAUSE_MS),
    {
        wait_for_socket(look, present, TPM_LOOKS, TPM_PAUSE_MS)
    }

    /// What follows a look for virtiofsd's socket. The looks count from zero.
    pub fn wait_virtiofsd_ready(&self, look: u32, present: bool) -> (res: SocketWait)
        ensures
            res == waiting(look as nat, present, VIRTIOFSD_LOOKS as nat, SOCKET_PAUSE_MS),
    {
        wait_for_socket(look, present, VIRTIOFSD_LOOKS, SOCKET_PAUSE_MS)
    }

    /// What follows a look whether the agent answers, which is only taken before time is up.
    pub fn wait_for_agent(&self, elapsed_ms: u64, healthy: bool) -> (res: SocketWait)
        ensures
            res == if elapsed_ms >= self@.config.agent_startup_timeout_secs * 1000 {
                SocketWait::GiveUp
            } else if healthy {
                SocketWait::Ready
            } else {
                SocketWait::Pause(AGENT_PAUSE_MS)
            },
            res == waiting_for_agent(elapsed_ms, healthy, self@.config.agent_startup_timeout_secs),
    {
        let limit: u128 = self.config.agent_startup_timeout_secs as u128 * 1000;
        if elapsed_ms as u128 >= limit {
            SocketWait::GiveUp
        } else if healthy {
            SocketWait::Ready
        } else {
            SocketWait::Pause(AGENT_PAUSE_MS)
        }
    }

    /// The TPM emulator to start, where the VM has a TPM.
    pub fn start_swtpm(&self) -> (res: Option<Invocation>)
        requires
            self.wf(),
        ensures
            match res {
                Some(i) => self@.config.tpm_enabled && i.program@ == "swtpm"@ && text::strings(
                    i.args@,
                ) == seq![
                    "socket"@,
                    "--tpmstate"@,
                    "dir="@ + self@.file("tpm-state"@),
                    "--ctrl"@,
                    "type=unixio,path="@ + self@.file("tpm.sock"@),
                    "--tpm2"@,
                    "--log"@,
                    "level=1"@,
                ],
                None => !self@.config.tpm_enabled,
            },
    {
        if !self.config.tpm_enabled {
            return None;
        }
        let dir: String = paths::join(self.state_dir.as_str(), "tpm-state");
        let state: String = text::join2("dir=", dir.as_str());
        let ctrl: String = text::join2("type=unixio,path=", self.tpm_socket.as_str());
        let a: [&str; 8] = [
            "socket",
            "--tpmstate",
            state.as_str(),
            "--ctrl",
            ctrl.as_str(),
            "--tpm2",
            "--log",
            "level=1",
        ];
        let args: Vec<String> = text::owned(&a);
        assert(text::strs(a@) =~= seq![
            "socket"@,
            "--tpmstate"@,
            "dir="@ + self@.file("tpm-state"@),
            "--ctrl"@,
            "type=unixio,path="@ + self@.file("tpm.sock"@),
            "--tpm2"@,
            "--log"@,
            "level=1"@,
        ]);
        Some(Invocation { program: "swtpm".to_owned(), args })
    }

    /// The daemon that serves the shared directory.
    pub fn spawn_virtiofsd(&self) -> (res: Invocation)
        requires
            self.wf(),
        ensures
            res.program@ == self@.config.virtiofsd_binary,
            text::strings(res.args@) == seq![
                "--socket-path="@ + self@.file("virtiofsd.sock"@),
                "--shared-dir="@ + self@.file("shared"@),
                "--cache=never"@,
                "--sandbox=none"@,
            ],
            (res.program@, text::strings(res.args@)) == virtiofsd_command(self@),
    {
        let socket: String = text::join2("--socket-path=", self.virtiofsd_socket.as_str());
        let dir: String = text::join2("--shared-dir=", self.shared_dir.as_str());
        let a: [&str; 4] = [socket.as_str(), dir.as_str(), "--cache=never", "--sandbox=none"];
        let args: Vec<String> = text::owned(&a);
        assert(text::strs(a@) =~= seq![
            "--socket-path="@ + self@.file("virtiofsd.sock"@),
            "--shared-dir="@ + self@.file("shared"@),
            "--cache=never"@,
            "--sandbox=none"@,
        ]);
        Invocation { program: self.config.virtiofsd_binary.clone(), args }
    }

    /// The hypervisor process, in a network namespace where one is given, so that it reaches the
    /// TAP device there.
    pub fn spawn_vmm_in_netns(&self, netns: Option<&str>) -> (res: Invocation)
        requires
            self.wf(),
        ensures
            ({
                let api = seq!["--api-socket"@, self@.file("api.sock"@)];
                match netns {
                    Some(ns) => res.program@ == "nsenter"@ && text::strings(res.args@) == seq![
                        "--net="@ + ns@,
                        "--"@,
                        self@.config.cloud_hypervisor_binary,
                    ] + api,
                    None => res.program@ == self@.config.cloud_hypervisor_binary && text::strings(
                        res.args@,
                    ) == api,
                }
            }),
            (res.program@, text::strings(res.args@)) == vmm_command(self@, text::opt_str(netns)),
    {
        let ch: &str = self.config.cloud_hypervisor_binary.as_str();
        let api: &str = self.api_socket.as_str();
        match netns {
            Some(ns) => {
                let arg: String = text::join2("--net=", ns);
                let a: [&str; 5] = [arg.as_str(), "--", ch, "--api-socket", api];
                let args: Vec<String> = text::owned(&a);
                assert(text::strs(a@) =~= seq![
                    "--net="@ + ns@,
                    "--"@,
                    self@.config.cloud_hypervisor_binary,
                ] + seq!["--api-socket"@, self@.file("api.sock"@)]);
                Invocation { program: "nsenter".to_owned(), args }
            },
            None => {
                let a: [&str; 2] = ["--api-socket", api];
                let args: Vec<String> = text::owned(&a);
                assert(text::strs(a@) =~= seq!["--api-socket"@, self@.file("api.sock"@)]);
                Invocation { program: ch.to_owned(), args }
            },
        }
    }

    /// The memory monitor to run, where memory can be plugged in.
    pub fn monitor_config(&self) -> (res: Option<MemoryMonitorConfig>)
        requires
            self.wf(),
            memory_fits(self@.config),
        ensures
            match res {
                Some(m) => {
                    &&& self@.config.hotplug_memory_mb > 0
                    &&& m.boot_memory_bytes == self@.config.default_memory_mb * 1048576
                    &&& m.max_memory_bytes == (self@.config.default_memory_mb
                        + self@.config.hotplug_memory_mb) * 1048576
                    &&& m.api_socket@ == self@.file("api.sock"@)
                    &&& m.vsock_socket@ == self@.file("vsock.sock"@)
                    &&& m.shared_dir@ == self@.file("shared"@)
                },
                None => self@.config.hotplug_memory_mb == 0,
            },
            match res {
                Some(m) => monitored(self@) == Some((m.boot_memory_bytes, m.max_memory_bytes)),
                None => monitored(self@) is None,
            },
    {
        if self.config.hotplug_memory_mb == 0 {
            return None;
        }
        let boot: u64 = self.config.default_memory_mb * 1048576;
        Some(
            MemoryMonitorConfig {
                boot_memory_bytes: boot,
                max_memory_bytes: boot + self.config.hotplug_memory_mb * 1048576,
                api_socket: self.api_socket.clone(),
                vsock_socket: self.vsock_socket.clone(),
                shared_dir: self.shared_dir.clone(),
            },
        )
    }

    /// Appends to the kernel command line.
    pub fn append_kernel_args(&mut self, args: &str)
        requires
            old(self).wf(),
        ensures
            final(self).wf(),
            final(self)@ == (VmView {
                config: RuntimeConfigView {
                    kernel_args: old(self)@.config.kernel_args + args@,
                    ..old(self)@.config
                },
                ..old(self)@
            }),
    {
        self.config.kernel_args.append(args);
    }

    pub fn vm_id(&self) -> (res: &str)
        ensures
            res@ == self@.vm_id,
    {
        self.vm_id.as_str()
    }

    pub fn cid(&self) -> (res: u64)
        ensures
            res == self@.cid,
    {
        self.cid
    }

    pub fn state_dir(&self) -> (res: &str)
        requires
            self.wf(),
        ensures
            res@ == self@.state_dir(),
    {
        self.state_dir.as_str()
    }

    pub fn shared_dir(&self) -> (res: &str)
        requires
            self.wf(),
        ensures
            res@ == self@.file("shared"@),
    {
        self.shared_dir.as_str()
    }

    pub fn vsock_socket(&self) -> (res: &str)
        requires
            self.wf(),
        ensures
            res@ == self@.file("vsock.sock"@),
    {
        self.vsock_socket.as_str()
    }

    pub fn virtiofsd_socket(&self) -> (res: &str)
        requires
            self.wf(),
        ensures
            res@ == self@.file("virtiofsd.sock"@),
    {
        self.virtiofsd_socket.as_str()
    }

    pub fn tpm_socket(&self) -> (res: &str)
        requires
            self.wf(),
        ensures
            res@ == self@.file("tpm.sock"@),
    {
        self.tpm_socket.as_str()
    }

    pub fn api_socket_path(&self) -> (res: &str)
        requires
            self.wf(),
        ensures
            res@ == self@.file("api.sock"@),
    {
        self.api_socket.as_str()
    }

    pub fn config(&self) -> (res: &RuntimeConfig)
        ensures
            res@ == self@.config,
    {
        &self.config
    }
}

/// Asks for a VM to be created.
pub fn create_request(config: &VmConfig) -> (res: ApiRequest)
    ensures
        text_request(res, "/api/v1/vm.create"@, config.text()),
{
    with_text("/api/v1/vm.create", config.to_text())
}

/// VMs with different names have different state directories, unless a name is an absolute path.
pub proof fn law_state_dirs_differ(a: VmView, b: VmView)
    requires
        a.vm_id != b.vm_id,
        a.vm_id.len() == 0 || a.vm_id[0] != '/',
        b.vm_id.len() == 0 || b.vm_id[0] != '/',
    ensures
        a.state_dir() != b.state_dir(),
{
    reveal_strlit("/run/cloudhv");
    let base = crate::RUNTIME_STATE_DIR@.push('/');
    assert(a.state_dir() =~= base + a.vm_id);
    assert(b.state_dir() =~= base + b.vm_id);
    if a.state_dir() == b.state_dir() {
        assert(a.vm_id =~= a.state_dir().skip(base.len() as int));
        assert(b.vm_id =~= b.state_dir().skip(base.len() as int));
    }
}

/// The VM that the call of [`VmManager::new`] with this number gives, when one allocator serves all
/// calls.
pub open spec fn nth_vm(n: nat, vm_id: Seq<char>, config: RuntimeConfigView) -> VmView {
    VmView { vm_id, cid: nth_cid(n), config }
}

/// However many VMs are made, each has a CID of its own, none of the reserved ones, as long as
/// there are CIDs; and each keeps its files in the directory with its name, unless the name is an
/// absolute path.
pub proof fn law_new_vms_are_apart(
    i: nat,
    j: nat,
    ids: Seq<Seq<char>>,
    configs: Seq<RuntimeConfigView>,
)
    requires
        ids.len() == configs.len(),
        ids.len() + crate::GUEST_CID_START <= u64::MAX + 1,
        i < ids.len(),
        j < ids.len(),
    ensures
        ({
            let v = nth_vm(i, ids[i as int], configs[i as int]);
            let w = nth_vm(j, ids[j as int], configs[j as int]);
            let dir = "/run/cloudhv/"@ + v.vm_id;
            &&& i != j ==> v.cid != w.cid
            &&& v.cid >= 3
            &&& v.vm_id.len() == 0 || v.vm_id[0] != '/' ==> v.state_dir() == dir
            &&& v.vm_id.len() > 0 && v.vm_id[0] != '/' && v.vm_id.last() != '/' ==> {
                &&& v.file("api.sock"@) == dir + "/api.sock"@
                &&& v.file("vsock.sock"@) == dir + "/vsock.sock"@
                &&& v.file("shared"@) == dir + "/shared"@
            }
        }),
{
    lemma_nth_cid(i);
    lemma_nth_cid(j);
    let v = nth_vm(i, ids[i as int], configs[i as int]);
    let dir = "/run/cloudhv/"@ + v.vm_id;
    reveal_strlit("/run/cloudhv");
    reveal_strlit("/run/cloudhv/");
    assert("/run/cloudhv"@.push('/') =~= "/run/cloudhv/"@);
    if v.vm_id.len() == 0 || v.vm_id[0] != '/' {
        assert(v.state_dir() =~= dir);
    }
    if v.vm_id.len() > 0 && v.vm_id[0] != '/' && v.vm_id.last() != '/' {
        assert(dir.last() == v.vm_id.last());
        reveal_strlit("api.sock");
        reveal_strlit("vsock.sock");
        reveal_strlit("shared");
        reveal_strlit("/api.sock");
        reveal_strlit("/vsock.sock");
        reveal_strlit("/shared");
        assert(v.file("api.sock"@) =~= dir + "/api.sock"@);
        assert(v.file("vsock.sock"@) =~= dir + "/vsock.sock"@);
        assert(v.file("shared"@) =~= dir + "/shared"@);
    }
}

/// A VM is configured as its runtime is: it boots with the memory and the processors asked for,
/// can grow by what may be plugged in and no further, and gives memory back only where it can grow.
/// Its memory is shared, as the share with the host needs it.
pub proof fn law_vm_memory_and_processors(v: VmView, most_vcpus: Option<u32>, c: VmConfig)
    requires
        base_config(v, most_vcpus, c),
        memory_fits(v.config),
    ensures
        c.memory.shared,
        c.memory.size == v.config.default_memory_mb * 1024 * 1024,
        c.memory.hotplug_size is None <==> v.config.hotplug_memory_mb == 0,
        c.memory.size + (match c.memory.hotplug_size {
            Some(n) => n as int,
            None => 0,
        }) == (v.config.default_memory_mb + v.config.hotplug_memory_mb) * 1024 * 1024,
        c.balloon is Some <==> v.config.hotplug_memory_mb > 0,
        c.balloon matches Some(b) ==> b.free_page_reporting && b.size == 0,
        c.cpus.boot_vcpus == v.config.default_vcpus,
        c.cpus.boot_vcpus <= c.cpus.max_vcpus,
        most_vcpus matches Some(n) ==> n <= c.cpus.max_vcpus,
        c.cpus.max_vcpus == c.cpus.boot_vcpus || most_vcpus == Some(c.cpus.max_vcpus),
        c.payload.kernel@ == v.config.kernel_path,
        c.payload.cmdline matches Some(l) && l@ == v.config.kernel_args,
        c.payload.initramfs is None,
        c.tpm is Some <==> v.config.tpm_enabled,
        c.vsock matches Some(x) && x.cid == v.cid,
        c.console matches Some(x) && x.mode@ == "Off"@,
        c.serial matches Some(x) && x.mode@ == "File"@ && x.file is Some,
        c.memory.hotplug_method is Some <==> v.config.hotplug_method == "virtio-mem"@,
{
}

/// The sockets and files of a VM stand in its state directory, each under a name of its own.
pub proof fn law_vm_files(v: VmView, most_vcpus: Option<u32>, c: VmConfig, fs: Seq<VmFs>)
    requires
        base_config(v, most_vcpus, c),
        share_is(v, fs),
    ensures
        ({
            let dir = v.state_dir();
            let name = |f: Seq<char>| if dir.len() > 0 && dir.last() == '/' {
                dir + f
            } else {
                dir + seq!['/'] + f
            };
            &&& dir.len() > 0 ==> {
                &&& c.vsock matches Some(x) && x.socket@ == name("vsock.sock"@)
                &&& c.serial matches Some(x) && text::opt_string(x.file) == Some(
                    name("console.log"@),
                )
                &&& c.tpm matches Some(t) ==> t.socket@ == name("tpm.sock"@)
                &&& fs.len() == 1 && fs[0].socket@ == name("virtiofsd.sock"@)
            }
            &&& c.vsock matches Some(x) && x.socket@ != fs[0].socket@
        }),
{
    reveal_strlit("vsock.sock");
    reveal_strlit("console.log");
    reveal_strlit("tpm.sock");
    reveal_strlit("virtiofsd.sock");
    reveal_strlit("/");
    let dir = v.state_dir();
    assert("/"@ =~= seq!['/']);
    assert("vsock.sock"@[0] == 'v' && "console.log"@[0] == 'c' && "tpm.sock"@[0] == 't'
        && "virtiofsd.sock"@[0] == 'v');
    assert("vsock.sock"@.len() == 10 && "virtiofsd.sock"@.len() == 14);
    assert(v.file("vsock.sock"@).len() != v.file("virtiofsd.sock"@).len());
}

/// The first disk of a VM is the writable root file system; the others follow as they were given.
pub proof fn law_vm_disks(v: VmView, disks: Seq<VmDisk>, extra: Seq<VmDisk>)
    requires
        disks_are(v, disks, extra),
    ensures
        disks.len() > 0,
        disks[0].path@ == v.config.rootfs_path,
        !disks[0].readonly,
        forall|i: int| 0 <= i < extra.len() ==> #[trigger] extra[i] == disks[i + 1],
{
    assert forall|i: int| 0 <= i < extra.len() implies #[trigger] extra[i] == disks[i + 1] by {
        assert(disks.skip(1)[i] == extra[i]);
    }
}

/// A VM has one network device where there is a TAP device, which is that one and has the hardware
/// address given; else it has none.
pub proof fn law_vm_network(net: Seq<VmNet>, tap: Option<Seq<char>>, mac: Option<Seq<char>>)
    requires
        net_is(net, tap, mac),
    ensures
        net.len() == if tap is Some {
            1int
        } else {
            0
        },
        tap matches Some(t) ==> net[0].tap@ == t,
        tap is Some && mac is Some ==> text::opt_string(net[0].mac) == mac,
        tap is Some && mac is None ==> net[0].mac is None,
{
}

/// A socket that is there in time is ready; one that is not is waited for, a pause at a time, and
/// given up after as many looks as are allowed.
pub proof fn law_waiting(look: nat, present: bool, looks: nat, pause_ms: u64)
    ensures
        look < looks && present <==> waiting(look, present, looks, pause_ms) == SocketWait::Ready,
        look < looks && !present ==> waiting(look, present, looks, pause_ms) == SocketWait::Pause(
            pause_ms,
        ),
        look >= looks ==> waiting(look, present, looks, pause_ms) == SocketWait::GiveUp,
        VMM_LOOKS * SOCKET_PAUSE_MS == 2500,
        VIRTIOFSD_LOOKS * SOCKET_PAUSE_MS == 1000,
        TPM_LOOKS * TPM_PAUSE_MS == 2000,
{
}

/// A resize request names what is to change and nothing else: the number of processors where one is
/// given, and the memory in bytes where that is given.
pub proof fn law_resize_names_what_changes(vcpus: Option<u32>, memory: Option<u64>)
    ensures
        ({
            let m = resize_document(vcpus, memory);
            &&& m.contains_key("desired_vcpus"@) <==> vcpus is Some
            &&& m.contains_key("desired_ram"@) <==> memory is Some
            &&& vcpus matches Some(n) ==> m["desired_vcpus"@] == JsonView::Integer(n as int)
            &&& memory matches Some(n) ==> m["desired_ram"@] == JsonView::Integer(n as int)
            &&& forall|k: Seq<char>| #[trigger]
                m.contains_key(k) ==> k == "desired_vcpus"@ || k == "desired_ram"@
        }),
{
    reveal_strlit("desired_vcpus");
    reveal_strlit("desired_ram");
    assert("desired_vcpus"@.len() != "desired_ram"@.len());
}

/// A disk that is added is the one named, read-only exactly where it is to be.
pub proof fn law_added_disk(path: Seq<char>, id: Seq<char>, readonly: bool)
    ensures
        disk_document(path, id, readonly).field("path"@) == Some(JsonView::Text(path)),
        disk_document(path, id, readonly).field("id"@) == Some(JsonView::Text(id)),
        disk_document(path, id, readonly).field("readonly"@) == Some(JsonView::Bool(readonly)),
        disk_text(path, id, readonly) == json::object_text(
            seq![
                json::member("path"@, json::compact(JsonView::Text(path))),
                json::member("readonly"@, json::compact(JsonView::Bool(readonly))),
                json::member("id"@, json::compact(JsonView::Text(id))),
            ],
        ),
{
    reveal_strlit("path");
    reveal_strlit("id");
    reveal_strlit("readonly");
    assert("path"@.len() == 4 && "id"@.len() == 2 && "readonly"@.len() == 8);
    let m = Seq::<Seq<char>>::empty();
    let m = m.push(json::member("path"@, json::compact(JsonView::Text(path))));
    let m = m.push(json::member("readonly"@, json::compact(JsonView::Bool(readonly))));
    let m = m.push(json::member("id"@, json::compact(JsonView::Text(id))));
    assert(m =~= seq![
        json::member("path"@, json::compact(JsonView::Text(path))),
        json::member("readonly"@, json::compact(JsonView::Bool(readonly))),
        json::member("id"@, json::compact(JsonView::Text(id))),
    ]);
}

/// The boot memory and the most memory of a VM whose memory is watched, in bytes; nothing where it
/// cannot grow.
pub open spec fn monitored(v: VmView) -> Option<(u64, u64)> {
    if v.config.hotplug_memory_mb > 0 {
        Some(
            (
                (v.config.default_memory_mb * 1048576) as u64,
                ((v.config.default_memory_mb + v.config.hotplug_memory_mb) * 1048576) as u64,
            ),
        )
    } else {
        None
    }
}

/// What follows a look whether the agent answers.
pub open spec fn waiting_for_agent(
    elapsed_ms: u64,
    healthy: bool,
    timeout_secs: u64,
) -> SocketWait {
    if elapsed_ms >= timeout_secs * 1000 {
        SocketWait::GiveUp
    } else if healthy {
        SocketWait::Ready
    } else {
        SocketWait::Pause(AGENT_PAUSE_MS)
    }
}

/// How the hypervisor of a VM is started: the program and its arguments.
pub open spec fn vmm_command(v: VmView, netns: Option<Seq<char>>) -> (Seq<char>, Seq<Seq<char>>) {
    let api = seq!["--api-socket"@, v.file("api.sock"@)];
    match netns {
        Some(ns) => (
            "nsenter"@,
            seq!["--net="@ + ns, "--"@, v.config.cloud_hypervisor_binary] + api,
        ),
        None => (v.config.cloud_hypervisor_binary, api),
    }
}

/// How the share of a VM is served: the program and its arguments.
pub open spec fn virtiofsd_command(v: VmView) -> (Seq<char>, Seq<Seq<char>>) {
    (
        v.config.virtiofsd_binary,
        seq![
            "--socket-path="@ + v.file("virtiofsd.sock"@),
            "--shared-dir="@ + v.file("shared"@),
            "--cache=never"@,
            "--sandbox=none"@,
        ],
    )
}

/// The memory of a VM is watched exactly where it can grow, between what it boots with and what it
/// can grow to by its configuration.
pub proof fn law_memory_is_watched(v: VmView, most_vcpus: Option<u32>, c: VmConfig)
    requires
        base_config(v, most_vcpus, c),
        memory_fits(v.config),
    ensures
        monitored(v) is Some <==> c.memory.hotplug_size is Some,
        monitored(v) matches Some(m) ==> m.0 == c.memory.size && m.1 == c.memory.size
            + c.memory.hotplug_size->Some_0 && m.0 < m.1,
{
}

/// An agent that answers in time is ready; one that does not is asked again after ten milliseconds,
/// until the time is over.
pub proof fn law_waiting_for_agent(elapsed_ms: u64, timeout_secs: u64)
    ensures
        elapsed_ms < timeout_secs * 1000 ==> waiting_for_agent(elapsed_ms, true, timeout_secs)
            == SocketWait::Ready && waiting_for_agent(elapsed_ms, false, timeout_secs)
            == SocketWait::Pause(10),
        elapsed_ms >= timeout_secs * 1000 ==> waiting_for_agent(elapsed_ms, true, timeout_secs)
            == SocketWait::GiveUp && waiting_for_agent(elapsed_ms, false, timeout_secs)
            == SocketWait::GiveUp,
{
}

/// The hypervisor runs with the API socket that the requests are sent to, and in the namespace of the
/// pod where there is one; the share is served from the shared directory on the socket that the
/// configuration names.
pub proof fn law_commands(
    v: VmView,
    ns: Seq<char>,
    fs: Seq<VmFs>,
)
    requires
        share_is(v, fs),
    ensures
        ({
            let plain = vmm_command(v, None);
            let inside = vmm_command(v, Some(ns));
            &&& plain.0 == v.config.cloud_hypervisor_binary
            &&& plain.1.len() == 2 && plain.1[0] == "--api-socket"@ && plain.1[1] == v.file(
                "api.sock"@,
            )
            &&& inside.0 == "nsenter"@
            &&& inside.1.len() == 5 && inside.1[0] == "--net="@ + ns && inside.1[1] == "--"@
                && inside.1[2] == plain.0 && inside.1.skip(3) == plain.1
            &&& virtiofsd_command(v).0 == v.config.virtiofsd_binary
            &&& virtiofsd_command(v).1[0] == "--socket-path="@ + fs[0].socket@
            &&& virtiofsd_command(v).1[1] == "--shared-dir="@ + v.file("shared"@)
            &&& virtiofsd_command(v).1.contains("--cache=never"@)
        }),
{
    let plain = vmm_command(v, None);
    let inside = vmm_command(v, Some(ns));
    assert(inside.1.skip(3) =~= plain.1);
    assert(virtiofsd_command(v).1[2] == "--cache=never"@);
}

} // verus!
