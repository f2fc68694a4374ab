//! The runtime configuration and the VM configuration sent to Cloud Hypervisor.

use crate::json;
use crate::json::{Json, JsonView};
use crate::text;
use vstd::prelude::*;

verus! {

/// Runtime configuration of the shim.
#[derive(Debug)]
pub struct RuntimeConfig {
    /// Path to the cloud-hypervisor binary.
    pub cloud_hypervisor_binary: String,
    /// Path to the virtiofsd binary.
    pub virtiofsd_binary: String,
    /// Path to the guest kernel (vmlinux or bzImage).
    pub kernel_path: String,
    /// Path to the guest rootfs image (ext4).
    pub rootfs_path: String,
    /// Default number of vCPUs per VM.
    pub default_vcpus: u32,
    /// Default memory in MiB per VM.
    pub default_memory_mb: u64,
    /// vsock port for the guest agent.
    pub vsock_port: u32,
    /// Timeout in seconds for agent startup.
    pub agent_startup_timeout_secs: u64,
    /// Kernel command line arguments.
    pub kernel_args: String,
    /// Enable debug logging.
    pub debug: bool,
    /// Number of pre-warmed VMs in the pool (0 = no pooling).
    pub pool_size: usize,
    /// Maximum containers per VM (1 = one container per VM).
    pub max_containers_per_vm: usize,
    /// Hotplug memory size in MiB (0 = no hotplug).
    pub hotplug_memory_mb: u64,
    /// Memory hotplug method: "acpi" (default) or "virtio-mem".
    pub hotplug_method: String,
    /// Enable TPM 2.0 device (requires swtpm installed on host).
    pub tpm_enabled: bool,
}

/// What a runtime configuration holds.
pub struct RuntimeConfigView {
    pub cloud_hypervisor_binary: Seq<char>,
    pub virtiofsd_binary: Seq<char>,
    pub kernel_path: Seq<char>,
    pub rootfs_path: Seq<char>,
    pub default_vcpus: u32,
    pub default_memory_mb: u64,
    pub vsock_port: u32,
    pub agent_startup_timeout_secs: u64,
    pub kernel_args: Seq<char>,
    pub debug: bool,
    pub pool_size: usize,
    pub max_containers_per_vm: usize,
    pub hotplug_memory_mb: u64,
    pub hotplug_method: Seq<char>,
    pub tpm_enabled: bool,
}

impl View for RuntimeConfig {
    type V = RuntimeConfigView;

    open spec fn view(&self) -> RuntimeConfigView {
        RuntimeConfigView {
            cloud_hypervisor_binary: self.cloud_hypervisor_binary@,
            virtiofsd_binary: self.virtiofsd_binary@,
            kernel_path: self.kernel_path@,
            rootfs_path: self.rootfs_path@,
            default_vcpus: self.default_vcpus,
            default_memory_mb: self.default_memory_mb,
            vsock_port: self.vsock_port,
            agent_startup_timeout_secs: self.agent_startup_timeout_secs,
            kernel_args: self.kernel_args@,
            debug: self.debug,
            pool_size: self.pool_size,
            max_containers_per_vm: self.max_containers_per_vm,
            hotplug_memory_mb: self.hotplug_memory_mb,
            hotplug_method: self.hotplug_method@,
            tpm_enabled: self.tpm_enabled,
        }
    }
}

impl Clone for RuntimeConfig {
    fn clone(&self) -> (res: Self)
        ensures
            res@ == self@,
    {
        RuntimeConfig {
            cloud_hypervisor_binary: self.cloud_hypervisor_binary.clone(),
            virtiofsd_binary: self.virtiofsd_binary.clone(),
            kernel_path: self.kernel_path.clone(),
            rootfs_path: self.rootfs_path.clone(),
            default_vcpus: self.default_vcpus,
            default_memory_mb: self.default_memory_mb,
            vsock_port: self.vsock_port,
            agent_startup_timeout_secs: self.agent_startup_timeout_secs,
            kernel_args: self.kernel_args.clone(),
            debug: self.debug,
            pool_size: self.pool_size,
            max_containers_per_vm: self.max_containers_per_vm,
            hotplug_memory_mb: self.hotplug_memory_mb,
            hotplug_method: self.hotplug_method.clone(),
            tpm_enabled: self.tpm_enabled,
        }
    }
}

/// The Cloud Hypervisor binary used where none is configured.
pub fn default_ch_binary() -> (res: String)
    ensures
        res@ == crate::DEFAULT_CH_BINARY@,
{
    crate::DEFAULT_CH_BINARY.to_owned()
}

/// The virtiofsd binary used where none is configured.
pub fn default_virtiofsd_binary() -> (res: String)
    ensures
        res@ == crate::DEFAULT_VIRTIOFSD_BINARY@,
{
    crate::DEFAULT_VIRTIOFSD_BINARY.to_owned()
}

/// The boot vCPUs of a VM where none are configured.
pub fn default_vcpus() -> (res: u32)
    ensures
        res == crate::DEFAULT_VCPUS,
{
    crate::DEFAULT_VCPUS
}

/// The boot memory of a VM where none is configured.
pub fn default_memory_mb() -> (res: u64)
    ensures
        res == crate::DEFAULT_MEMORY_MB,
{
    crate::DEFAULT_MEMORY_MB
}

/// The agent's vsock port where none is configured.
pub fn default_vsock_port() -> (res: u32)
    ensures
        res == crate::AGENT_VSOCK_PORT,
{
    crate::AGENT_VSOCK_PORT
}

/// The agent's startup timeout where none is configured.
pub fn default_agent_timeout() -> (res: u64)
    ensures
        res == crate::AGENT_STARTUP_TIMEOUT_SECS,
{
    crate::AGENT_STARTUP_TIMEOUT_SECS
}

/// The processor architecture of host and guest.
#[derive(Clone, Copy, Debug, PartialEq, Eq, Structural)]
pub enum GuestArch {
    X86_64,
    Aarch64,
}

/// The kernel command line for an architecture: the console is the virtio console on x86_64 and
/// the PL011 UART on aarch64.
pub open spec fn kernel_args_spec(arch: GuestArch) -> Seq<char> {
    match arch {
        GuestArch::X86_64 => "console=hvc0 root=/dev/vda rw quiet init=/init net.ifnames=0"@,
        GuestArch::Aarch64 => "console=ttyAMA0 root=/dev/vda rw quiet init=/init net.ifnames=0"@,
    }
}

/// The kernel command line for an architecture, where none is configured.
pub fn default_kernel_args_for(arch: GuestArch) -> (res: String)
    ensures
        res@ == kernel_args_spec(arch),
{
    match arch {
        GuestArch::X86_64 =>
            "console=hvc0 root=/dev/vda rw quiet init=/init net.ifnames=0".to_owned(),
        GuestArch::Aarch64 =>
            "console=ttyAMA0 root=/dev/vda rw quiet init=/init net.ifnames=0".to_owned(),
    }
}

/// The kernel command line on x86_64, where none is configured.
pub fn default_kernel_args() -> (res: String)
    ensures
        res@ == kernel_args_spec(GuestArch::X86_64),
{
    default_kernel_args_for(GuestArch::X86_64)
}

/// The pool size where none is configured.
pub fn default_pool_size() -> (res: usize)
    ensures
        res == crate::DEFAULT_POOL_SIZE,
{
    crate::DEFAULT_POOL_SIZE
}

/// The containers per VM where no limit is configured.
pub fn default_max_containers_per_vm() -> (res: usize)
    ensures
        res == crate::DEFAULT_MAX_CONTAINERS_PER_VM,
{
    crate::DEFAULT_MAX_CONTAINERS_PER_VM
}

/// The hotpluggable memory where none is configured.
pub fn default_hotplug_memory_mb() -> (res: u64)
    ensures
        res == crate::DEFAULT_HOTPLUG_MEMORY_MB,
{
    crate::DEFAULT_HOTPLUG_MEMORY_MB
}

/// The memory hotplug method where none is configured.
pub fn default_hotplug_method() -> (res: String)
    ensures
        res@ == "acpi"@,
{
    "acpi".to_owned()
}

/// The queues of a virtio-fs device where none are configured.
pub fn default_fs_queues() -> (res: u32)
    ensures
        res == 1,
{
    1
}

/// The size of a virtio-fs queue where none is configured.
pub fn default_fs_queue_size() -> (res: u32)
    ensures
        res == 128,
{
    128
}

/// The document for a text that may be missing.
pub open spec fn opt_text_document(s: Option<String>) -> Option<JsonView> {
    match s {
        Some(t) => Some(JsonView::Text(t@)),
        None => None,
    }
}

/// The document for an integer that may be missing.
pub open spec fn opt_integer_document(n: Option<u64>) -> Option<JsonView> {
    match n {
        Some(x) => Some(JsonView::Integer(x as int)),
        None => None,
    }
}

fn opt_text_json(s: &Option<String>) -> (res: Option<Json>)
    ensures
        match res {
            Some(j) => opt_text_document(*s) == Some(j@),
            None => s is None,
        },
{
    match s {
        Some(t) => Some(json::json_text(t.as_str())),
        None => None,
    }
}

fn opt_integer_json(n: Option<u64>) -> (res: Option<Json>)
    ensures
        match res {
            Some(j) => opt_integer_document(n) == Some(j@),
            None => n is None,
        },
{
    match n {
        Some(x) => Some(Json::Unsigned(x)),
        None => None,
    }
}

/// The text of an optional text, as JSON.
pub open spec fn opt_string_text(s: Option<String>) -> Option<Seq<char>> {
    match s {
        Some(t) => Some(json::compact(JsonView::Text(t@))),
        None => None,
    }
}

/// The text of an optional integer, as JSON.
pub open spec fn opt_integer_text(n: Option<u64>) -> Option<Seq<char>> {
    match n {
        Some(x) => Some(json::compact(JsonView::Integer(x as int))),
        None => None,
    }
}

fn opt_string(s: &Option<String>) -> (res: Option<String>)
    ensures
        text::opt_string(res) == opt_string_text(*s),
{
    match s {
        Some(t) => Some(json::string_text(t.as_str())),
        None => None,
    }
}

fn opt_integer(n: Option<u64>) -> (res: Option<String>)
    ensures
        text::opt_string(res) == opt_integer_text(n),
{
    match n {
        Some(x) => Some(json::integer_text(x)),
        None => None,
    }
}

/// What the VM boots.
#[derive(Debug, Clone)]
pub struct VmPayload {
    pub kernel: String,
    pub cmdline: Option<String>,
    pub initramfs: Option<String>,
}

impl VmPayload {
    /// The JSON document that stands for this value.
    pub open spec fn document(&self) -> JsonView {
        let m = Map::<Seq<char>, JsonView>::empty();
        let m = m.insert("kernel"@, JsonView::Text(self.kernel@));
        let m = json::with_opt(m, "cmdline"@, opt_text_document(self.cmdline));
        let m = json::with_opt(m, "initramfs"@, opt_text_document(self.initramfs));
        JsonView::Object(m)
    }

    /// Builds the JSON document.
    pub fn to_json(&self) -> (res: Json)
        ensures
            res@ == self.document(),
    {
        let mut v: Vec<(String, Json)> = Vec::new();
        json::put(&mut v, "kernel", json::json_text(self.kernel.as_str()));
        json::put_opt(&mut v, "cmdline", opt_text_json(&self.cmdline));
        json::put_opt(&mut v, "initramfs", opt_text_json(&self.initramfs));
        Json::Object(v)
    }

    /// The JSON text that stands for this value: its fields in order.
    pub open spec fn text(&self) -> Seq<char> {
        let m = Seq::<Seq<char>>::empty();
        let m = m.push(json::member("kernel"@, json::compact(JsonView::Text(self.kernel@))));
        let m = json::with_member(m, "cmdline"@, opt_string_text(self.cmdline));
        let m = json::with_member(m, "initramfs"@, opt_string_text(self.initramfs));
        json::object_text(m)
    }

    /// Writes the JSON text.
    pub fn to_text(&self) -> (res: String)
        ensures
            res@ == self.text(),
    {
        let mut v: Vec<String> = json::no_parts();
        json::add_member(&mut v, "kernel", json::string_text(self.kernel.as_str()));
        json::add_opt_member(&mut v, "cmdline", opt_string(&self.cmdline));
        json::add_opt_member(&mut v, "initramfs", opt_string(&self.initramfs));
        json::object_of(&v)
    }
}

/// The vCPUs of a VM.
#[derive(Debug, Clone)]
pub struct VmCpus {
    pub boot_vcpus: u32,
    pub max_vcpus: u32,
}

impl VmCpus {
    /// The JSON document that stands for this value.
    pub open spec fn document(&self) -> JsonView {
        let m = Map::<Seq<char>, JsonView>::empty();
        let m = m.insert("boot_vcpus"@, JsonView::Integer(self.boot_vcpus as int));
        let m = m.insert("max_vcpus"@, JsonView::Integer(self.max_vcpus as int));
        JsonView::Object(m)
    }

    /// Builds the JSON document.
    pub fn to_json(&self) -> (res: Json)
        ensures
            res@ == self.document(),
    {
        let mut v: Vec<(String, Json)> = Vec::new();
        json::put(&mut v, "boot_vcpus", Json::Unsigned(self.boot_vcpus as u64));
        json::put(&mut v, "max_vcpus", Json::Unsigned(self.max_vcpus as u64));
        Json::Object(v)
    }

    /// The JSON text that stands for this value: its fields in order.
    pub open spec fn text(&self) -> Seq<char> {
        let m = Seq::<Seq<char>>::empty();
        let m = m.push(
            json::member("boot_vcpus"@, json::compact(JsonView::Integer(self.boot_vcpus as int))),
        );
        let m = m.push(
            json::member("max_vcpus"@, json::compact(JsonView::Integer(self.max_vcpus as int))),
        );
        json::object_text(m)
    }

    /// Writes the JSON text.
    pub fn to_text(&self) -> (res: String)
        ensures
            res@ == self.text(),
    {
        let mut v: Vec<String> = json::no_parts();
        json::add_member(&mut v, "boot_vcpus", json::integer_text(self.boot_vcpus as u64));
        json::add_member(&mut v, "max_vcpus", json::integer_text(self.max_vcpus as u64));
        json::object_of(&v)
    }
}

/// The memory of a VM.
#[derive(Debug, Clone)]
pub struct VmMemory {
    /// Memory size in bytes.
    pub size: u64,
    pub shared: bool,
    pub hotplug_size: Option<u64>,
    pub hotplug_method: Option<String>,
}

impl VmMemory {
    /// The JSON document that stands for this value.
    pub open spec fn document(&self) -> JsonView {
        let m = Map::<Seq<char>, JsonView>::empty();
        let m = m.insert("size"@, JsonView::Integer(self.size as int));
        let m = m.insert("shared"@, JsonView::Bool(self.shared));
        let m = json::with_opt(m, "hotplug_size"@, opt_integer_document(self.hotplug_size));
        let m = json::with_opt(m, "hotplug_method"@, opt_text_document(self.hotplug_method));
        JsonView::Object(m)
    }

    /// Builds the JSON document.
    pub fn to_json(&self) -> (res: Json)
        ensures
            res@ == self.document(),
    {
        let mut v: Vec<(String, Json)> = Vec::new();
        json::put(&mut v, "size", Json::Unsigned(self.size));
        json::put(&mut v, "shared", Json::Bool(self.shared));
        json::put_opt(&mut v, "hotplug_size", opt_integer_json(self.hotplug_size));
        json::put_opt(&mut v, "hotplug_method", opt_text_json(&self.hotplug_method));
        Json::Object(v)
    }

    /// The JSON text that stands for this value: its fields in order.
    pub open spec fn text(&self) -> Seq<char> {
        let m = Seq::<Seq<char>>::empty();
        let m = m.push(json::member("size"@, json::compact(JsonView::Integer(self.size as int))));
        let m = m.push(json::member("shared"@, json::compact(JsonView::Bool(self.shared))));
        let m = json::with_member(m, "hotplug_size"@, opt_integer_text(self.hotplug_size));
        let m = json::with_member(m, "hotplug_method"@, opt_string_text(self.hotplug_method));
        json::object_text(m)
    }

    /// Writes the JSON text.
    pub fn to_text(&self) -> (res: String)
        ensures
            res@ == self.text(),
    {
        let mut v: Vec<String> = json::no_parts();
        json::add_member(&mut v, "size", json::integer_text(self.size));
        json::add_member(&mut v, "shared", json::bool_text(self.shared));
        json::add_opt_member(&mut v, "hotplug_size", opt_integer(self.hotplug_size));
        json::add_opt_member(&mut v, "hotplug_method", opt_string(&self.hotplug_method));
        json::object_of(&v)
    }
}

/// A block device of a VM.
#[derive(Debug, Clone)]
pub struct VmDisk {
    pub path: String,
    pub readonly: bool,
    pub id: Option<String>,
}

impl VmDisk {
    /// The JSON document that stands for this value.
    pub open spec fn document(&self) -> JsonView {
        let m = Map::<Seq<char>, JsonView>::empty();
        let m = m.insert("path"@, JsonView::Text(self.path@));
        let m = m.insert("readonly"@, JsonView::Bool(self.readonly));
        let m = json::with_opt(m, "id"@, opt_text_document(self.id));
        JsonView::Object(m)
    }

    /// Builds the JSON document.
    pub fn to_json(&self) -> (res: Json)
        ensures
            res@ == self.document(),
    {
        let mut v: Vec<(String, Json)> = Vec::new();
        json::put(&mut v, "path", json::json_text(self.path.as_str()));
        json::put(&mut v, "readonly", Json::Bool(self.readonly));
        json::put_opt(&mut v, "id", opt_text_json(&self.id));
        Json::Object(v)
    }

    /// The JSON text that stands for this value: its fields in order.
    pub open spec fn text(&self) -> Seq<char> {
        let m = Seq::<Seq<char>>::empty();
        let m = m.push(json::member("path"@, json::compact(JsonView::Text(self.path@))));
        let m = m.push(json::member("readonly"@, json::compact(JsonView::Bool(self.readonly))));
        let m = json::with_member(m, "id"@, opt_string_text(self.id));
        json::object_text(m)
    }

    /// Writes the JSON text.
    pub fn to_text(&self) -> (res: String)
        ensures
            res@ == self.text(),
    {
        let mut v: Vec<String> = json::no_parts();
        json::add_member(&mut v, "path", json::string_text(self.path.as_str()));
        json::add_member(&mut v, "readonly", json::bool_text(self.readonly));
        json::add_opt_member(&mut v, "id", opt_string(&self.id));
        json::object_of(&v)
    }
}

/// A network device of a VM, attached to a TAP device.
#[derive(Debug, Clone)]
pub struct VmNet {
    pub tap: String,
    pub mac: Option<String>,
}

impl VmNet {
    /// The JSON document that stands for this value.
    pub open spec fn document(&self) -> JsonView {
        let m = Map::<Seq<char>, JsonView>::empty();
        let m = m.insert("tap"@, JsonView::Text(self.tap@));
        let m = json::with_opt(m, "mac"@, opt_text_document(self.mac));
        JsonView::Object(m)
    }

    /// Builds the JSON document.
    pub fn to_json(&self) -> (res: Json)
        ensures
            res@ == self.document(),
    {
        let mut v: Vec<(String, Json)> = Vec::new();
        json::put(&mut v, "tap", json::json_text(self.tap.as_str()));
        json::put_opt(&mut v, "mac", opt_text_json(&self.mac));
        Json::Object(v)
    }

    /// The JSON text that stands for this value: its fields in order.
    pub open spec fn text(&self) -> Seq<char> {
        let m = Seq::<Seq<char>>::empty();
        let m = m.push(json::member("tap"@, json::compact(JsonView::Text(self.tap@))));
        let m = json::with_member(m, "mac"@, opt_string_text(self.mac));
        json::object_text(m)
    }

    /// Writes the JSON text.
    pub fn to_text(&self) -> (res: String)
        ensures
            res@ == self.text(),
    {
        let mut v: Vec<String> = json::no_parts();
        json::add_member(&mut v, "tap", json::string_text(self.tap.as_str()));
        json::add_opt_member(&mut v, "mac", opt_string(&self.mac));
        json::object_of(&v)
    }
}

/// A virtio-fs share of a VM.
#[derive(Debug, Clone)]
pub struct VmFs {
    pub tag: String,
    pub socket: String,
    pub num_queues: u32,
    pub queue_size: u32,
}

impl VmFs {
    /// The JSON document that stands for this value.
    pub open spec fn document(&self) -> JsonView {
        let m = Map::<Seq<char>, JsonView>::empty();
        let m = m.insert("tag"@, JsonView::Text(self.tag@));
        let m = m.insert("socket"@, JsonView::Text(self.socket@));
        let m = m.insert("num_queues"@, JsonView::Integer(self.num_queues as int));
        let m = m.insert("queue_size"@, JsonView::Integer(self.queue_size as int));
        JsonView::Object(m)
    }

    /// Builds the JSON document.
    pub fn to_json(&self) -> (res: Json)
        ensures
            res@ == self.document(),
    {
        let mut v: Vec<(String, Json)> = Vec::new();
        json::put(&mut v, "tag", json::json_text(self.tag.as_str()));
        json::put(&mut v, "socket", json::json_text(self.socket.as_str()));
        json::put(&mut v, "num_queues", Json::Unsigned(self.num_queues as u64));
        json::put(&mut v, "queue_size", Json::Unsigned(self.queue_size as u64));
        Json::Object(v)
    }

    /// The JSON text that stands for this value: its fields in order.
    pub open spec fn text(&self) -> Seq<char> {
        let m = Seq::<Seq<char>>::empty();
        let m = m.push(json::member("tag"@, json::compact(JsonView::Text(self.tag@))));
        let m = m.push(json::member("socket"@, json::compact(JsonView::Text(self.socket@))));
        let m = m.push(
            json::member("num_queues"@, json::compact(JsonView::Integer(self.num_queues as int))),
        );
        let m = m.push(
            json::member("queue_size"@, json::compact(JsonView::Integer(self.queue_size as int))),
        );
        json::object_text(m)
    }

    /// Writes the JSON text.
    pub fn to_text(&self) -> (res: String)
        ensures
            res@ == self.text(),
    {
        let mut v: Vec<String> = json::no_parts();
        json::add_member(&mut v, "tag", json::string_text(self.tag.as_str()));
        json::add_member(&mut v, "socket", json::string_text(self.socket.as_str()));
        json::add_member(&mut v, "num_queues", json::integer_text(self.num_queues as u64));
        json::add_member(&mut v, "queue_size", json::integer_text(self.queue_size as u64));
        json::object_of(&v)
    }
}

/// The vsock device of a VM.
#[derive(Debug, Clone)]
pub struct VmVsock {
    pub cid: u64,
    pub socket: String,
}

impl VmVsock {
    /// The JSON document that stands for this value.
    pub open spec fn document(&self) -> JsonView {
        let m = Map::<Seq<char>, JsonView>::empty();
        let m = m.insert("cid"@, JsonView::Integer(self.cid as int));
        let m = m.insert("socket"@, JsonView::Text(self.socket@));
        JsonView::Object(m)
    }

    /// Builds the JSON document.
    pub fn to_json(&self) -> (res: Json)
        ensures
            res@ == self.document(),
    {
        let mut v: Vec<(String, Json)> = Vec::new();
        json::put(&mut v, "cid", Json::Unsigned(self.cid));
        json::put(&mut v, "socket", json::json_text(self.socket.as_str()));
        Json::Object(v)
    }

    /// The JSON text that stands for this value: its fields in order.
    pub open spec fn text(&self) -> Seq<char> {
        let m = Seq::<Seq<char>>::empty();
        let m = m.push(json::member("cid"@, json::compact(JsonView::Integer(self.cid as int))));
        let m = m.push(json::member("socket"@, json::compact(JsonView::Text(self.socket@))));
        json::object_text(m)
    }

    /// Writes the JSON text.
    pub fn to_text(&self) -> (res: String)
        ensures
            res@ == self.text(),
    {
        let mut v: Vec<String> = json::no_parts();
        json::add_member(&mut v, "cid", json::integer_text(self.cid));
        json::add_member(&mut v, "socket", json::string_text(self.socket.as_str()));
        json::object_of(&v)
    }
}

/// Where a console of a VM goes.
#[derive(Debug, Clone)]
pub struct VmConsoleConfig {
    pub mode: String,
    pub file: Option<String>,
}

impl VmConsoleConfig {
    /// The JSON document that stands for this value.
    pub open spec fn document(&self) -> JsonView {
        let m = Map::<Seq<char>, JsonView>::empty();
        let m = m.insert("mode"@, JsonView::Text(self.mode@));
        let m = json::with_opt(m, "file"@, opt_text_document(self.file));
        JsonView::Object(m)
    }

    /// Builds the JSON document.
    pub fn to_json(&self) -> (res: Json)
        ensures
            res@ == self.document(),
    {
        let mut v: Vec<(String, Json)> = Vec::new();
        json::put(&mut v, "mode", json::json_text(self.mode.as_str()));
        json::put_opt(&mut v, "file", opt_text_json(&self.file));
        Json::Object(v)
    }

    /// The JSON text that stands for this value: its fields in order.
    pub open spec fn text(&self) -> Seq<char> {
        let m = Seq::<Seq<char>>::empty();
        let m = m.push(json::member("mode"@, json::compact(JsonView::Text(self.mode@))));
        let m = json::with_member(m, "file"@, opt_string_text(self.file));
        json::object_text(m)
    }

    /// Writes the JSON text.
    pub fn to_text(&self) -> (res: String)
        ensures
            res@ == self.text(),
    {
        let mut v: Vec<String> = json::no_parts();
        json::add_member(&mut v, "mode", json::string_text(self.mode.as_str()));
        json::add_opt_member(&mut v, "file", opt_string(&self.file));
        json::object_of(&v)
    }
}

impl VmConsoleConfig {
    /// A console that is switched off.
    pub fn off() -> (res: Self)
        ensures
            res.mode@ == "Off"@,
            res.file is None,
    {
        VmConsoleConfig { mode: "Off".to_owned(), file: None }
    }

    /// A console whose output goes to a file.
    pub fn file(path: &str) -> (res: Self)
        ensures
            res.mode@ == "File"@,
            res.file matches Some(f) && f@ == path@,
    {
        VmConsoleConfig { mode: "File".to_owned(), file: Some(path.to_owned()) }
    }
}

/// The balloon device of a VM.
#[derive(Debug, Clone)]
pub struct VmBalloon {
    pub size: u64,
    pub free_page_reporting: bool,
}

impl VmBalloon {
    /// The JSON document that stands for this value.
    pub open spec fn document(&self) -> JsonView {
        let m = Map::<Seq<char>, JsonView>::empty();
        let m = m.insert("size"@, JsonView::Integer(self.size as int));
        let m = m.insert("free_page_reporting"@, JsonView::Bool(self.free_page_reporting));
        JsonView::Object(m)
    }

    /// Builds the JSON document.
    pub fn to_json(&self) -> (res: Json)
        ensures
            res@ == self.document(),
    {
        let mut v: Vec<(String, Json)> = Vec::new();
        json::put(&mut v, "size", Json::Unsigned(self.size));
        json::put(&mut v, "free_page_reporting", Json::Bool(self.free_page_reporting));
        Json::Object(v)
    }

    /// The JSON text that stands for this value: its fields in order.
    pub open spec fn text(&self) -> Seq<char> {
        let m = Seq::<Seq<char>>::empty();
        let m = m.push(json::member("size"@, json::compact(JsonView::Integer(self.size as int))));
        let m = m.push(
            json::member(
                "free_page_reporting"@,
                json::compact(JsonView::Bool(self.free_page_reporting)),
            ),
        );
        json::object_text(m)
    }

    /// Writes the JSON text.
    pub fn to_text(&self) -> (res: String)
        ensures
            res@ == self.text(),
    {
        let mut v: Vec<String> = json::no_parts();
        json::add_member(&mut v, "size", json::integer_text(self.size));
        json::add_member(&mut v, "free_page_reporting", json::bool_text(self.free_page_reporting));
        json::object_of(&v)
    }
}

/// TPM 2.0 device configuration (requires external swtpm).
#[derive(Debug, Clone)]
pub struct VmTpm {
    pub socket: String,
}

impl VmTpm {
    /// The JSON document that stands for this value.
    pub open spec fn document(&self) -> JsonView {
        let m = Map::<Seq<char>, JsonView>::empty();
        let m = m.insert("socket"@, JsonView::Text(self.socket@));
        JsonView::Object(m)
    }

    /// Builds the JSON document.
    pub fn to_json(&self) -> (res: Json)
        ensures
            res@ == self.document(),
    {
        let mut v: Vec<(String, Json)> = Vec::new();
        json::put(&mut v, "socket", json::json_text(self.socket.as_str()));
        Json::Object(v)
    }

    /// The JSON text that stands for this value: its fields in order.
    pub open spec fn text(&self) -> Seq<char> {
        let m = Seq::<Seq<char>>::empty();
        let m = m.push(json::member("socket"@, json::compact(JsonView::Text(self.socket@))));
        json::object_text(m)
    }

    /// Writes the JSON text.
    pub fn to_text(&self) -> (res: String)
        ensures
            res@ == self.text(),
    {
        let mut v: Vec<String> = json::no_parts();
        json::add_member(&mut v, "socket", json::string_text(self.socket.as_str()));
        json::object_of(&v)
    }
}

/// Cloud Hypervisor VM configuration (JSON sent to the CH API).
#[derive(Debug, Clone)]
pub struct VmConfig {
    pub payload: VmPayload,
    pub cpus: VmCpus,
    pub memory: VmMemory,
    pub disks: Vec<VmDisk>,
    pub net: Vec<VmNet>,
    pub fs: Vec<VmFs>,
    pub vsock: Option<VmVsock>,
    pub serial: Option<VmConsoleConfig>,
    pub console: Option<VmConsoleConfig>,
    pub balloon: Option<VmBalloon>,
    pub tpm: Option<VmTpm>,
}

impl VmConfig {
    /// The JSON document that stands for this value.
    pub open spec fn document(&self) -> JsonView {
        let m = Map::<Seq<char>, JsonView>::empty();
        let m = m.insert("payload"@, self.payload.document());
        let m = m.insert("cpus"@, self.cpus.document());
        let m = m.insert("memory"@, self.memory.document());
        let m = json::with_opt(
            m,
            "disks"@,
            if self.disks@.len() == 0 {
                None
            } else {
                Some(JsonView::Array(Seq::new(self.disks@.len(), |i: int| self.disks@[i].document())))
            },
        );
        let m = json::with_opt(
            m,
            "net"@,
            if self.net@.len() == 0 {
                None
            } else {
                Some(JsonView::Array(Seq::new(self.net@.len(), |i: int| self.net@[i].document())))
            },
        );
        let m = json::with_opt(
            m,
            "fs"@,
            if self.fs@.len() == 0 {
                None
            } else {
                Some(JsonView::Array(Seq::new(self.fs@.len(), |i: int| self.fs@[i].document())))
            },
        );
        let m = json::with_opt(
            m,
            "vsock"@,
            match self.vsock {
                Some(x) => Some(x.document()),
                None => None,
            },
        );
        let m = json::with_opt(
            m,
            "serial"@,
            match self.serial {
                Some(x) => Some(x.document()),
                None => None,
            },
        );
        let m = json::with_opt(
            m,
            "console"@,
            match self.console {
                Some(x) => Some(x.document()),
                None => None,
            },
        );
        let m = json::with_opt(
            m,
            "balloon"@,
            match self.balloon {
                Some(x) => Some(x.document()),
                None => None,
            },
        );
        let m = json::with_opt(
            m,
            "tpm"@,
            match self.tpm {
                Some(x) => Some(x.document()),
                None => None,
            },
        );
        JsonView::Object(m)
    }

    /// Builds the JSON document.
    pub fn to_json(&self) -> (res: Json)
        ensures
            res@ == self.document(),
    {
        let mut v: Vec<(String, Json)> = Vec::new();
        json::put(&mut v, "payload", self.payload.to_json());
        json::put(&mut v, "cpus", self.cpus.to_json());
        json::put(&mut v, "memory", self.memory.to_json());
        if self.disks.len() > 0 {
            let mut a: Vec<Json> = Vec::new();
            let mut i: usize = 0;
            while i < self.disks.len()
                invariant
                    i <= self.disks@.len(),
                    json::elements(a@) =~= Seq::new(i as nat, |k: int| self.disks@[k].document()),
                decreases self.disks@.len() - i,
            {
                json::add_element(&mut a, self.disks[i].to_json());
                i += 1;
            }
            json::put(&mut v, "disks", Json::Array(a));
        }
        if self.net.len() > 0 {
            let mut a: Vec<Json> = Vec::new();
            let mut i: usize = 0;
            while i < self.net.len()
                invariant
                    i <= self.net@.len(),
                    json::elements(a@) =~= Seq::new(i as nat, |k: int| self.net@[k].document()),
                decreases self.net@.len() - i,
            {
                json::add_element(&mut a, self.net[i].to_json());
                i += 1;
            }
            json::put(&mut v, "net", Json::Array(a));
        }
        if self.fs.len() > 0 {
            let mut a: Vec<Json> = Vec::new();
            let mut i: usize = 0;
            while i < self.fs.len()
                invariant
                    i <= self.fs@.len(),
                    json::elements(a@) =~= Seq::new(i as nat, |k: int| self.fs@[k].document()),
                decreases self.fs@.len() - i,
            {
                json::add_element(&mut a, self.fs[i].to_json());
                i += 1;
            }
            json::put(&mut v, "fs", Json::Array(a));
        }
        if let Some(x) = &self.vsock {
            json::put(&mut v, "vsock", x.to_json());
        }
        if let Some(x) = &self.serial {
            json::put(&mut v, "serial", x.to_json());
        }
        if let Some(x) = &self.console {
            json::put(&mut v, "console", x.to_json());
        }
        if let Some(x) = &self.balloon {
            json::put(&mut v, "balloon", x.to_json());
        }
        if let Some(x) = &self.tpm {
            json::put(&mut v, "tpm", x.to_json());
        }
        Json::Object(v)
    }

    /// The JSON text that stands for this value: its fields in order.
    pub open spec fn text(&self) -> Seq<char> {
        let m = Seq::<Seq<char>>::empty();
        let m = m.push(json::member("payload"@, self.payload.text()));
        let m = m.push(json::member("cpus"@, self.cpus.text()));
        let m = m.push(json::member("memory"@, self.memory.text()));
        let m = json::with_member(
            m,
            "disks"@,
            if self.disks@.len() == 0 {
                None
            } else {
                Some(json::array_text(Seq::new(self.disks@.len(), |i: int| self.disks@[i].text())))
            },
        );
        let m = json::with_member(
            m,
            "net"@,
            if self.net@.len() == 0 {
                None
            } else {
                Some(json::array_text(Seq::new(self.net@.len(), |i: int| self.net@[i].text())))
            },
        );
        let m = json::with_member(
            m,
            "fs"@,
            if self.fs@.len() == 0 {
                None
            } else {
                Some(json::array_text(Seq::new(self.fs@.len(), |i: int| self.fs@[i].text())))
            },
        );
        let m = json::with_member(
            m,
            "vsock"@,
            match self.vsock {
                Some(x) => Some(x.text()),
                None => None,
            },
        );
        let m = json::with_member(
            m,
            "serial"@,
            match self.serial {
                Some(x) => Some(x.text()),
                None => None,
            },
        );
        let m = json::with_member(
            m,
            "console"@,
            match self.console {
                Some(x) => Some(x.text()),
                None => None,
            },
        );
        let m = json::with_member(
            m,
            "balloon"@,
            match self.balloon {
                Some(x) => Some(x.text()),
                None => None,
            },
        );
        let m = json::with_member(
            m,
            "tpm"@,
            match self.tpm {
                Some(x) => Some(x.text()),
                None => None,
            },
        );
        json::object_text(m)
    }

    /// Writes the JSON text.
    pub fn to_text(&self) -> (res: String)
        ensures
            res@ == self.text(),
    {
        let mut v: Vec<String> = json::no_parts();
        json::add_member(&mut v, "payload", self.payload.to_text());
        json::add_member(&mut v, "cpus", self.cpus.to_text());
        json::add_member(&mut v, "memory", self.memory.to_text());
        if self.disks.len() > 0 {
            let mut a: Vec<String> = json::no_parts();
            let mut i: usize = 0;
            while i < self.disks.len()
                invariant
                    i <= self.disks@.len(),
                    text::strings(a@) =~= Seq::new(i as nat, |k: int| self.disks@[k].text()),
                decreases self.disks@.len() - i,
            {
                json::add_item(&mut a, self.disks[i].to_text());
                i += 1;
            }
            json::add_member(&mut v, "disks", json::array_of(&a));
        }
        if self.net.len() > 0 {
            let mut a: Vec<String> = json::no_parts();
            let mut i: usize = 0;
            while i < self.net.len()
                invariant
                    i <= self.net@.len(),
                    text::strings(a@) =~= Seq::new(i as nat, |k: int| self.net@[k].text()),
                decreases self.net@.len() - i,
            {
                json::add_item(&mut a, self.net[i].to_text());
                i += 1;
            }
            json::add_member(&mut v, "net", json::array_of(&a));
        }
        if self.fs.len() > 0 {
            let mut a: Vec<String> = json::no_parts();
            let mut i: usize = 0;
            while i < self.fs.len()
                invariant
                    i <= self.fs@.len(),
                    text::strings(a@) =~= Seq::new(i as nat, |k: int| self.fs@[k].text()),
                decreases self.fs@.len() - i,
            {
                json::add_item(&mut a, self.fs[i].to_text());
                i += 1;
            }
            json::add_member(&mut v, "fs", json::array_of(&a));
        }
        if let Some(x) = &self.vsock {
            json::add_member(&mut v, "vsock", x.to_text());
        }
        if let Some(x) = &self.serial {
            json::add_member(&mut v, "serial", x.to_text());
        }
        if let Some(x) = &self.console {
            json::add_member(&mut v, "console", x.to_text());
        }
        if let Some(x) = &self.balloon {
            json::add_member(&mut v, "balloon", x.to_text());
        }
        if let Some(x) = &self.tpm {
            json::add_member(&mut v, "tpm", x.to_text());
        }
        json::object_of(&v)
    }
}

/// Live migration configuration.
#[derive(Debug, Clone)]
pub struct MigrationConfig {
    /// Transport URI: "unix:/path/to/socket" or "tcp:host:port".
    pub uri: String,
    /// Whether this is a local (same-host) migration.
    pub local: bool,
}

impl MigrationConfig {
    /// The JSON document that stands for this value.
    pub open spec fn document(&self) -> JsonView {
        let m = Map::<Seq<char>, JsonView>::empty();
        let m = m.insert("uri"@, JsonView::Text(self.uri@));
        let m = m.insert("local"@, JsonView::Bool(self.local));
        JsonView::Object(m)
    }

    /// Builds the JSON document.
    pub fn to_json(&self) -> (res: Json)
        ensures
            res@ == self.document(),
    {
        let mut v: Vec<(String, Json)> = Vec::new();
        json::put(&mut v, "uri", json::json_text(self.uri.as_str()));
        json::put(&mut v, "local", Json::Bool(self.local));
        Json::Object(v)
    }
}

/// Snapshot configuration.
#[derive(Debug, Clone)]
pub struct SnapshotConfig {
    /// Directory to store/load snapshot files.
    pub destination_url: String,
}

impl SnapshotConfig {
    /// The JSON document that stands for this value.
    pub open spec fn document(&self) -> JsonView {
        let m = Map::<Seq<char>, JsonView>::empty();
        let m = m.insert("destination_url"@, JsonView::Text(self.destination_url@));
        JsonView::Object(m)
    }

    /// Builds the JSON document.
    pub fn to_json(&self) -> (res: Json)
        ensures
            res@ == self.document(),
    {
        let mut v: Vec<(String, Json)> = Vec::new();
        json::put(&mut v, "destination_url", json::json_text(self.destination_url.as_str()));
        Json::Object(v)
    }
}

/// The members of an object as they are written, in the order of `keys`: those of them that it has.
pub open spec fn written(doc: JsonView, keys: Seq<Seq<char>>) -> Seq<Seq<char>>
    decreases keys.len(),
{
    if keys.len() == 0 {
        Seq::empty()
    } else {
        let before = written(doc, keys.drop_last());
        match doc.field(keys.last()) {
            Some(v) => before.push(json::member(keys.last(), json::compact(v))),
            None => before,
        }
    }
}

proof fn lemma_written(doc: JsonView, keys: Seq<Seq<char>>, key: Seq<char>)
    ensures
        written(doc, keys.push(key)) == match doc.field(key) {
            Some(v) => written(doc, keys).push(json::member(key, json::compact(v))),
            None => written(doc, keys),
        },
{
    assert(keys.push(key).drop_last() =~= keys);
}

/// What boots a VM is named for what it is: kernel, command line and initial file system. Its
/// text has these members in this order, each as it stands in its document, and leaves out what
/// is not given.
pub proof fn law_payload_is_written(x: VmPayload)
    ensures
        x.document().field("kernel"@) == Some(JsonView::Text(x.kernel@)),
        x.document().field("cmdline"@) == (match x.cmdline {
            Some(t) => Some(JsonView::Text(t@)),
            None => None,
        }),
        x.document().field("initramfs"@) == (match x.initramfs {
            Some(t) => Some(JsonView::Text(t@)),
            None => None,
        }),
        x.text() == json::object_text(
            written(x.document(), seq!["kernel"@, "cmdline"@, "initramfs"@]),
        ),
{
    reveal_strlit("kernel");
    reveal_strlit("cmdline");
    reveal_strlit("initramfs");
    assert("kernel"@.len() != "cmdline"@.len());
    assert("kernel"@.len() != "initramfs"@.len());
    assert("cmdline"@.len() != "initramfs"@.len());
    let d = x.document();
    let k0 = Seq::<Seq<char>>::empty();
    let k1 = k0.push("kernel"@);
    lemma_written(d, k0, "kernel"@);
    let k2 = k1.push("cmdline"@);
    lemma_written(d, k1, "cmdline"@);
    let k3 = k2.push("initramfs"@);
    lemma_written(d, k2, "initramfs"@);
    assert(k3 =~= seq!["kernel"@, "cmdline"@, "initramfs"@]);
}

/// The processors of a VM: those it boots with, and those it may have. Its text has these members
/// in this order, each as it stands in its document, and leaves out what is not given.
pub proof fn law_cpus_is_written(x: VmCpus)
    ensures
        x.document().field("boot_vcpus"@) == Some(JsonView::Integer(x.boot_vcpus as int)),
        x.document().field("max_vcpus"@) == Some(JsonView::Integer(x.max_vcpus as int)),
        x.text() == json::object_text(
            written(x.document(), seq!["boot_vcpus"@, "max_vcpus"@]),
        ),
{
    reveal_strlit("boot_vcpus");
    reveal_strlit("max_vcpus");
    assert("boot_vcpus"@.len() != "max_vcpus"@.len());
    let d = x.document();
    let k0 = Seq::<Seq<char>>::empty();
    let k1 = k0.push("boot_vcpus"@);
    lemma_written(d, k0, "boot_vcpus"@);
    let k2 = k1.push("max_vcpus"@);
    lemma_written(d, k1, "max_vcpus"@);
    assert(k2 =~= seq!["boot_vcpus"@, "max_vcpus"@]);
}

/// The memory of a VM: its size, whether it is shared, and what may be plugged in and how. Its
/// text has these members in this order, each as it stands in its document, and leaves out what
/// is not given.
pub proof fn law_memory_is_written(x: VmMemory)
    ensures
        x.document().field("size"@) == Some(JsonView::Integer(x.size as int)),
        x.document().field("shared"@) == Some(JsonView::Bool(x.shared)),
        x.document().field("hotplug_size"@) == (match x.hotplug_size {
            Some(n) => Some(JsonView::Integer(n as int)),
            None => None,
        }),
        x.document().field("hotplug_method"@) == (match x.hotplug_method {
            Some(t) => Some(JsonView::Text(t@)),
            None => None,
        }),
        x.text() == json::object_text(
            written(x.document(), seq!["size"@, "shared"@, "hotplug_size"@, "hotplug_method"@]),
        ),
{
    reveal_strlit("size");
    reveal_strlit("shared");
    reveal_strlit("hotplug_size");
    reveal_strlit("hotplug_method");
    assert("size"@.len() != "shared"@.len());
    assert("size"@.len() != "hotplug_size"@.len());
    assert("shared"@.len() != "hotplug_size"@.len());
    assert("size"@.len() != "hotplug_method"@.len());
    assert("shared"@.len() != "hotplug_method"@.len());
    assert("hotplug_size"@.len() != "hotplug_method"@.len());
    let d = x.document();
    let k0 = Seq::<Seq<char>>::empty();
    let k1 = k0.push("size"@);
    lemma_written(d, k0, "size"@);
    let k2 = k1.push("shared"@);
    lemma_written(d, k1, "shared"@);
    let k3 = k2.push("hotplug_size"@);
    lemma_written(d, k2, "hotplug_size"@);
    let k4 = k3.push("hotplug_method"@);
    lemma_written(d, k3, "hotplug_method"@);
    assert(k4 =~= seq!["size"@, "shared"@, "hotplug_size"@, "hotplug_method"@]);
}

/// A disk of a VM: its path, whether it is read-only, and its name. Its text has these members in
/// this order, each as it stands in its document, and leaves out what is not given.
pub proof fn law_disk_is_written(x: VmDisk)
    ensures
        x.document().field("path"@) == Some(JsonView::Text(x.path@)),
        x.document().field("readonly"@) == Some(JsonView::Bool(x.readonly)),
        x.document().field("id"@) == (match x.id {
            Some(t) => Some(JsonView::Text(t@)),
            None => None,
        }),
        x.text() == json::object_text(
            written(x.document(), seq!["path"@, "readonly"@, "id"@]),
        ),
{
    reveal_strlit("path");
    reveal_strlit("readonly");
    reveal_strlit("id");
    assert("path"@.len() != "readonly"@.len());
    assert("path"@.len() != "id"@.len());
    assert("readonly"@.len() != "id"@.len());
    let d = x.document();
    let k0 = Seq::<Seq<char>>::empty();
    let k1 = k0.push("path"@);
    lemma_written(d, k0, "path"@);
    let k2 = k1.push("readonly"@);
    lemma_written(d, k1, "readonly"@);
    let k3 = k2.push("id"@);
    lemma_written(d, k2, "id"@);
    assert(k3 =~= seq!["path"@, "readonly"@, "id"@]);
}

/// A network device of a VM: its TAP device and its hardware address. Its text has these members
/// in this order, each as it stands in its document, and leaves out what is not given.
pub proof fn law_net_is_written(x: VmNet)
    ensures
        x.document().field("tap"@) == Some(JsonView::Text(x.tap@)),
        x.document().field("mac"@) == (match x.mac {
            Some(t) => Some(JsonView::Text(t@)),
            None => None,
        }),
        x.text() == json::object_text(
            written(x.document(), seq!["tap"@, "mac"@]),
        ),
{
    reveal_strlit("tap");
    reveal_strlit("mac");
    assert("tap"@[0] != "mac"@[0]);
    let d = x.document();
    let k0 = Seq::<Seq<char>>::empty();
    let k1 = k0.push("tap"@);
    lemma_written(d, k0, "tap"@);
    let k2 = k1.push("mac"@);
    lemma_written(d, k1, "mac"@);
    assert(k2 =~= seq!["tap"@, "mac"@]);
}

/// A share of a VM: its tag, its socket, and its queues. Its text has these members in this
/// order, each as it stands in its document, and leaves out what is not given.
pub proof fn law_fs_is_written(x: VmFs)
    ensures
        x.document().field("tag"@) == Some(JsonView::Text(x.tag@)),
        x.document().field("socket"@) == Some(JsonView::Text(x.socket@)),
        x.document().field("num_queues"@) == Some(JsonView::Integer(x.num_queues as int)),
        x.document().field("queue_size"@) == Some(JsonView::Integer(x.queue_size as int)),
        x.text() == json::object_text(
            written(x.document(), seq!["tag"@, "socket"@, "num_queues"@, "queue_size"@]),
        ),
{
    reveal_strlit("tag");
    reveal_strlit("socket");
    reveal_strlit("num_queues");
    reveal_strlit("queue_size");
    assert("tag"@.len() != "socket"@.len());
    assert("tag"@.len() != "num_queues"@.len());
    assert("socket"@.len() != "num_queues"@.len());
    assert("tag"@.len() != "queue_size"@.len());
    assert("socket"@.len() != "queue_size"@.len());
    assert("num_queues"@[0] != "queue_size"@[0]);
    let d = x.document();
    let k0 = Seq::<Seq<char>>::empty();
    let k1 = k0.push("tag"@);
    lemma_written(d, k0, "tag"@);
    let k2 = k1.push("socket"@);
    lemma_written(d, k1, "socket"@);
    let k3 = k2.push("num_queues"@);
    lemma_written(d, k2, "num_queues"@);
    let k4 = k3.push("queue_size"@);
    lemma_written(d, k3, "queue_size"@);
    assert(k4 =~= seq!["tag"@, "socket"@, "num_queues"@, "queue_size"@]);
}

/// The vsock device of a VM: its guest number and its socket. Its text has these members in this
/// order, each as it stands in its document, and leaves out what is not given.
pub proof fn law_vsock_is_written(x: VmVsock)
    ensures
        x.document().field("cid"@) == Some(JsonView::Integer(x.cid as int)),
        x.document().field("socket"@) == Some(JsonView::Text(x.socket@)),
        x.text() == json::object_text(
            written(x.document(), seq!["cid"@, "socket"@]),
        ),
{
    reveal_strlit("cid");
    reveal_strlit("socket");
    assert("cid"@.len() != "socket"@.len());
    let d = x.document();
    let k0 = Seq::<Seq<char>>::empty();
    let k1 = k0.push("cid"@);
    lemma_written(d, k0, "cid"@);
    let k2 = k1.push("socket"@);
    lemma_written(d, k1, "socket"@);
    assert(k2 =~= seq!["cid"@, "socket"@]);
}

/// A console of a VM: how it is written, and to which file. Its text has these members in this
/// order, each as it stands in its document, and leaves out what is not given.
pub proof fn law_console_is_written(x: VmConsoleConfig)
    ensures
        x.document().field("mode"@) == Some(JsonView::Text(x.mode@)),
        x.document().field("file"@) == (match x.file {
            Some(t) => Some(JsonView::Text(t@)),
            None => None,
        }),
        x.text() == json::object_text(
            written(x.document(), seq!["mode"@, "file"@]),
        ),
{
    reveal_strlit("mode");
    reveal_strlit("file");
    assert("mode"@[0] != "file"@[0]);
    let d = x.document();
    let k0 = Seq::<Seq<char>>::empty();
    let k1 = k0.push("mode"@);
    lemma_written(d, k0, "mode"@);
    let k2 = k1.push("file"@);
    lemma_written(d, k1, "file"@);
    assert(k2 =~= seq!["mode"@, "file"@]);
}

/// The balloon of a VM: its size, and whether it reports free pages. Its text has these members
/// in this order, each as it stands in its document, and leaves out what is not given.
pub proof fn law_balloon_is_written(x: VmBalloon)
    ensures
        x.document().field("size"@) == Some(JsonView::Integer(x.size as int)),
        x.document().field("free_page_reporting"@) == Some(JsonView::Bool(x.free_page_reporting)),
        x.text() == json::object_text(
            written(x.document(), seq!["size"@, "free_page_reporting"@]),
        ),
{
    reveal_strlit("size");
    reveal_strlit("free_page_reporting");
    assert("size"@.len() != "free_page_reporting"@.len());
    let d = x.document();
    let k0 = Seq::<Seq<char>>::empty();
    let k1 = k0.push("size"@);
    lemma_written(d, k0, "size"@);
    let k2 = k1.push("free_page_reporting"@);
    lemma_written(d, k1, "free_page_reporting"@);
    assert(k2 =~= seq!["size"@, "free_page_reporting"@]);
}

/// The TPM of a VM: its socket. Its text has these members in this order, each as it stands in
/// its document, and leaves out what is not given.
pub proof fn law_tpm_is_written(x: VmTpm)
    ensures
        x.document().field("socket"@) == Some(JsonView::Text(x.socket@)),
        x.text() == json::object_text(
            written(x.document(), seq!["socket"@]),
        ),
{
    reveal_strlit("socket");
    let d = x.document();
    let k0 = Seq::<Seq<char>>::empty();
    let k1 = k0.push("socket"@);
    lemma_written(d, k0, "socket"@);
    assert(k1 =~= seq!["socket"@]);
}

/// A configuration names each part of a VM for what it is, and leaves out the lists that are empty
/// and the parts that are not there.
pub proof fn law_config_is_written(x: VmConfig)
    ensures
        x.document().field("payload"@) == Some(x.payload.document()),
        x.document().field("cpus"@) == Some(x.cpus.document()),
        x.document().field("memory"@) == Some(x.memory.document()),
        x.disks@.len() == 0 ==> x.document().field("disks"@) is None,
        x.disks@.len() > 0 ==> (x.document().field("disks"@) matches Some(JsonView::Array(a))
            && a.len() == x.disks@.len() && forall|i: int|
            0 <= i < a.len() ==> #[trigger] a[i] == x.disks@[i].document()),
        x.net@.len() == 0 ==> x.document().field("net"@) is None,
        x.net@.len() > 0 ==> (x.document().field("net"@) matches Some(JsonView::Array(a)) && a.len()
            == x.net@.len() && forall|i: int|
            0 <= i < a.len() ==> #[trigger] a[i] == x.net@[i].document()),
        x.fs@.len() == 0 ==> x.document().field("fs"@) is None,
        x.fs@.len() > 0 ==> (x.document().field("fs"@) matches Some(JsonView::Array(a)) && a.len()
            == x.fs@.len() && forall|i: int|
            0 <= i < a.len() ==> #[trigger] a[i] == x.fs@[i].document()),
        x.document().field("vsock"@) == (match x.vsock {
            Some(v) => Some(v.document()),
            None => None,
        }),
        x.document().field("serial"@) == (match x.serial {
            Some(v) => Some(v.document()),
            None => None,
        }),
        x.document().field("console"@) == (match x.console {
            Some(v) => Some(v.document()),
            None => None,
        }),
        x.document().field("balloon"@) == (match x.balloon {
            Some(v) => Some(v.document()),
            None => None,
        }),
        x.document().field("tpm"@) == (match x.tpm {
            Some(v) => Some(v.document()),
            None => None,
        }),
{
    reveal_strlit("payload");
    reveal_strlit("cpus");
    reveal_strlit("memory");
    reveal_strlit("disks");
    reveal_strlit("net");
    reveal_strlit("fs");
    reveal_strlit("vsock");
    reveal_strlit("serial");
    reveal_strlit("console");
    reveal_strlit("balloon");
    reveal_strlit("tpm");
    assert("payload"@.len() == 7 && "payload"@[0] == 'p');
    assert("cpus"@.len() == 4 && "cpus"@[0] == 'c');
    assert("memory"@.len() == 6 && "memory"@[0] == 'm');
    assert("disks"@.len() == 5 && "disks"@[0] == 'd');
    assert("net"@.len() == 3 && "net"@[0] == 'n');
    assert("fs"@.len() == 2 && "fs"@[0] == 'f');
    assert("vsock"@.len() == 5 && "vsock"@[0] == 'v');
    assert("serial"@.len() == 6 && "serial"@[0] == 's');
    assert("console"@.len() == 7 && "console"@[0] == 'c');
    assert("balloon"@.len() == 7 && "balloon"@[0] == 'b');
    assert("tpm"@.len() == 3 && "tpm"@[0] == 't');
    assert("payload"@[1] == 'a' && "cpus"@[1] == 'p');
}

/// The members of those of some parts that are there, in order.
pub open spec fn present(parts: Seq<(Seq<char>, Option<Seq<char>>)>) -> Seq<Seq<char>>
    decreases parts.len(),
{
    if parts.len() == 0 {
        Seq::empty()
    } else {
        let before = present(parts.drop_last());
        match parts.last().1 {
            Some(v) => before.push(json::member(parts.last().0, v)),
            None => before,
        }
    }
}

proof fn lemma_present(
    parts: Seq<(Seq<char>, Option<Seq<char>>)>,
    key: Seq<char>,
    v: Option<Seq<char>>,
)
    ensures
        present(parts.push((key, v))) == json::with_member(present(parts), key, v),
{
    assert(parts.push((key, v)).drop_last() =~= parts);
}

/// The parts of a configuration with their texts, in the order in which they are written. A list
/// that is empty is no part.
pub open spec fn config_parts(x: VmConfig) -> Seq<(Seq<char>, Option<Seq<char>>)> {
    seq![
        ("payload"@, Some(x.payload.text())),
        ("cpus"@, Some(x.cpus.text())),
        ("memory"@, Some(x.memory.text())),
        (
            "disks"@,
            if x.disks@.len() > 0 {
                Some(json::array_text(Seq::new(x.disks@.len(), |i: int| x.disks@[i].text())))
            } else {
                None
            },
        ),
        (
            "net"@,
            if x.net@.len() > 0 {
                Some(json::array_text(Seq::new(x.net@.len(), |i: int| x.net@[i].text())))
            } else {
                None
            },
        ),
        (
            "fs"@,
            if x.fs@.len() > 0 {
                Some(json::array_text(Seq::new(x.fs@.len(), |i: int| x.fs@[i].text())))
            } else {
                None
            },
        ),
        (
            "vsock"@,
            match x.vsock {
                Some(v) => Some(v.text()),
                None => None,
            },
        ),
        (
            "serial"@,
            match x.serial {
                Some(v) => Some(v.text()),
                None => None,
            },
        ),
        (
            "console"@,
            match x.console {
                Some(v) => Some(v.text()),
                None => None,
            },
        ),
        (
            "balloon"@,
            match x.balloon {
                Some(v) => Some(v.text()),
                None => None,
            },
        ),
        (
            "tpm"@,
            match x.tpm {
                Some(v) => Some(v.text()),
                None => None,
            },
        ),
    ]
}

/// The text of a configuration has its parts in order: what boots the VM, processors and memory
/// first, then the lists and the other parts as far as there are any, each with its own text.
#[verifier::spinoff_prover]
#[verifier::rlimit(60)]
pub proof fn law_config_text(x: VmConfig)
    ensures
        x.text() == json::object_text(present(config_parts(x))),
{
    let p = config_parts(x);
    let p0 = Seq::<(Seq<char>, Option<Seq<char>>)>::empty();
    let p1 = p0.push((p[0].0, p[0].1));
    lemma_present(p0, p[0].0, p[0].1);
    let p2 = p1.push((p[1].0, p[1].1));
    lemma_present(p1, p[1].0, p[1].1);
    let p3 = p2.push((p[2].0, p[2].1));
    lemma_present(p2, p[2].0, p[2].1);
    let p4 = p3.push((p[3].0, p[3].1));
    lemma_present(p3, p[3].0, p[3].1);
    let p5 = p4.push((p[4].0, p[4].1));
    lemma_present(p4, p[4].0, p[4].1);
    let p6 = p5.push((p[5].0, p[5].1));
    lemma_present(p5, p[5].0, p[5].1);
    let p7 = p6.push((p[6].0, p[6].1));
    lemma_present(p6, p[6].0, p[6].1);
    let p8 = p7.push((p[7].0, p[7].1));
    lemma_present(p7, p[7].0, p[7].1);
    let p9 = p8.push((p[8].0, p[8].1));
    lemma_present(p8, p[8].0, p[8].1);
    let p10 = p9.push((p[9].0, p[9].1));
    lemma_present(p9, p[9].0, p[9].1);
    let p11 = p10.push((p[10].0, p[10].1));
    lemma_present(p10, p[10].0, p[10].1);
    assert(p11 =~= p);
}

/// What a migration and a snapshot are told: where to, and whether on the same host.
pub proof fn law_transfer_documents(m: MigrationConfig, s: SnapshotConfig)
    ensures
        m.document().field("uri"@) == Some(JsonView::Text(m.uri@)),
        m.document().field("local"@) == Some(JsonView::Bool(m.local)),
        s.document().field("destination_url"@) == Some(JsonView::Text(s.destination_url@)),
{
    reveal_strlit("uri");
    reveal_strlit("local");
    assert("uri"@.len() != "local"@.len());
}

/// Whatever the machine, the guest's root is its first disk, writable, and its first process is the
/// agent; only the console differs.
pub proof fn law_kernel_args(arch: GuestArch)
    ensures
        kernel_args_spec(arch) == "console="@ + (if arch is X86_64 {
            "hvc0"@
        } else {
            "ttyAMA0"@
        }) + " root=/dev/vda rw quiet init=/init net.ifnames=0"@,
{
    reveal_strlit("console=");
    reveal_strlit("hvc0");
    reveal_strlit("ttyAMA0");
    reveal_strlit(" root=/dev/vda rw quiet init=/init net.ifnames=0");
    reveal_strlit("console=hvc0 root=/dev/vda rw quiet init=/init net.ifnames=0");
    reveal_strlit("console=ttyAMA0 root=/dev/vda rw quiet init=/init net.ifnames=0");
    assert("console=hvc0 root=/dev/vda rw quiet init=/init net.ifnames=0"@ =~= "console="@ + "hvc0"@
        + " root=/dev/vda rw quiet init=/init net.ifnames=0"@);
    assert("console=ttyAMA0 root=/dev/vda rw quiet init=/init net.ifnames=0"@ =~= "console="@
        + "ttyAMA0"@ + " root=/dev/vda rw quiet init=/init net.ifnames=0"@);
}

} // verus!
