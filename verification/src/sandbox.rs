//! Starting the sandbox of a pod: its network, its configuration and its hypervisor process.

use crate::annotations;
use crate::net;
use crate::oci;
use crate::oci::SandboxSpec;
use crate::paths;
use crate::tap;
use crate::tap::TapInfo;
use crate::text;
use crate::types::{RuntimeConfig, RuntimeConfigView};
use crate::vm;
use crate::vm::{CidAllocator, VmManager, VmView};
use vstd::prelude::*;

verus! {

/// Why a sandbox could not be started.
#[derive(Debug, Clone, Copy, PartialEq, Eq, Structural)]
pub enum SandboxError {
    /// The runtime configuration could not be loaded.
    Config,
    /// The directories of the VM could not be prepared.
    Prepare,
    /// The TPM emulator did not start.
    Tpm,
    /// The hypervisor did not start.
    Spawn,
    /// The hypervisor does not answer.
    NotReady,
}

/// How far a sandbox has come.
#[derive(Debug, Clone, Copy, PartialEq, Eq, Structural)]
pub enum SandboxPhase {
    ReadSpec,
    /// The network is being set up; the attempts count from zero.
    SetUpNetwork(u32),
    Pause(u32),
    LoadConfig,
    Prepare,
    StartTpm,
    Spawn,
    WaitReady,
    /// The sandbox is ready: its VM is to be registered.
    Ready,
    Failed(SandboxError),
}

/// What to do next.
#[derive(Debug)]
pub enum SandboxAction {
    /// Read this file as text.
    ReadText(String),
    /// Set up the network of the VM in this namespace.
    SetUpNetwork(String),
    /// Wait so many milliseconds.
    Sleep(u64),
    /// Load the runtime configuration.
    LoadConfig,
    /// Prepare the directories of the VM.
    Prepare,
    /// Start the TPM emulator, where the VM has a TPM.
    StartTpm,
    /// Start the hypervisor, in this network namespace where there is one.
    Spawn(Option<String>),
    /// Wait until the hypervisor answers.
    WaitReady,
    /// Nothing: the VM is to be registered.
    Ready,
    /// Nothing: the sandbox does not start.
    Fail(SandboxError),
}

/// A sandbox that is being started.
pub struct SandboxStart {
    id: String,
    bundle: String,
    spec: SandboxSpec,
    network: Option<TapInfo>,
    vm: Option<VmManager>,
    phase: SandboxPhase,
}

/// The network of a VM.
pub struct NetworkView {
    pub tap: Seq<char>,
    pub mac: Seq<char>,
    pub cidr: Seq<char>,
    pub gateway: Seq<char>,
}

/// The network that was set up, where one was.
pub open spec fn network_view(n: Option<TapInfo>) -> Option<NetworkView> {
    match n {
        Some(i) => Some(
            NetworkView {
                tap: i.tap_name@,
                mac: i.mac@,
                cidr: i.ip_cidr@,
                gateway: i.gateway@,
            },
        ),
        None => None,
    }
}

/// The state of a sandbox that is being started.
pub struct SandboxView {
    pub id: Seq<char>,
    pub bundle: Seq<char>,
    pub spec: SandboxSpec,
    pub network: Option<NetworkView>,
    pub vm: Option<VmView>,
    pub phase: SandboxPhase,
}

impl View for SandboxStart {
    type V = SandboxView;

    closed spec fn view(&self) -> SandboxView {
        SandboxView {
            id: self.id@,
            bundle: self.bundle@,
            spec: self.spec,
            network: network_view(self.network),
            vm: match self.vm {
                Some(v) => Some(v@),
                None => None,
            },
            phase: self.phase,
        }
    }
}

/// The configuration of a sandbox's VM: what was loaded, with the pod's annotations and resource
/// limits applied, and with the pod's network on the kernel command line.
pub open spec fn configuration(
    loaded: RuntimeConfigView,
    spec: SandboxSpec,
    network: Option<NetworkView>,
) -> RuntimeConfigView {
    let limited = annotations::with_limit(
        annotations::with_request(
            annotations::applied(loaded, spec.annotations@),
            spec.mem_request,
        ),
        spec.mem_limit,
    );
    match network {
        Some(n) => RuntimeConfigView {
            kernel_args: limited.kernel_args + net::ip_parameter(n.cidr, n.gateway),
            ..limited
        },
        None => limited,
    }
}

impl SandboxView {
    pub open spec fn to(self, phase: SandboxPhase) -> SandboxView {
        SandboxView { phase, ..self }
    }

    /// The network fits the guest's kernel, and there is a VM from its configuration on.
    pub open spec fn wf(self) -> bool {
        &&& self.network matches Some(n) ==> net::prefix_of(n.cidr) <= 32
        &&& match self.phase {
            SandboxPhase::SetUpNetwork(n) => n < tap::SETUP_ATTEMPTS && self.spec.netns is Some
                && self.network is None && self.vm is None,
            SandboxPhase::Pause(n) => n + 1 < tap::SETUP_ATTEMPTS && self.spec.netns is Some
                && self.network is None && self.vm is None,
            SandboxPhase::ReadSpec => self.network is None && self.vm is None,
            SandboxPhase::LoadConfig => self.vm is None,
            SandboxPhase::Failed(_) => true,
            _ => self.vm is Some,
        }
    }

    /// Whether `a` is what is asked for in the phase.
    pub open spec fn asks(self, a: SandboxAction) -> bool {
        match self.phase {
            SandboxPhase::ReadSpec => a matches SandboxAction::ReadText(f) && f@ == paths::joined(
                self.bundle,
                "config.json"@,
            ),
            SandboxPhase::SetUpNetwork(_) => a matches SandboxAction::SetUpNetwork(n) && Some(n@)
                == text::opt_string(self.spec.netns),
            SandboxPhase::Pause(_) => a == SandboxAction::Sleep(tap::SETUP_PAUSE_MS),
            SandboxPhase::LoadConfig => a == SandboxAction::LoadConfig,
            SandboxPhase::Prepare => a == SandboxAction::Prepare,
            SandboxPhase::StartTpm => a == SandboxAction::StartTpm,
            SandboxPhase::Spawn => a matches SandboxAction::Spawn(n) && text::opt_string(n)
                == text::opt_string(self.spec.netns),
            SandboxPhase::WaitReady => a == SandboxAction::WaitReady,
            SandboxPhase::Ready => a == SandboxAction::Ready,
            SandboxPhase::Failed(e) => a == SandboxAction::Fail(e),
        }
    }

    /// The state after the network was set up, or not. When the last attempt fails, the VM goes
    /// without a network.
    pub open spec fn after_network(self, network: Option<NetworkView>) -> SandboxView {
        match self.phase {
            SandboxPhase::SetUpNetwork(n) => match network {
                Some(i) => SandboxView { network: Some(i), ..self }.to(SandboxPhase::LoadConfig),
                None => self.to(
                    if n + 1 < tap::SETUP_ATTEMPTS {
                        SandboxPhase::Pause(n)
                    } else {
                        SandboxPhase::LoadConfig
                    },
                ),
            },
            _ => self,
        }
    }

    /// The state after a pause.
    pub open spec fn after_pause(self) -> SandboxView {
        match self.phase {
            SandboxPhase::Pause(n) => self.to(SandboxPhase::SetUpNetwork((n + 1) as u32)),
            _ => self,
        }
    }

    /// The state after the runtime configuration was loaded, or not.
    pub open spec fn after_config(self, loaded: Option<RuntimeConfigView>, cid: u64) -> SandboxView {
        match self.phase {
            SandboxPhase::LoadConfig => match loaded {
                Some(c) => SandboxView {
                    vm: Some(
                        VmView {
                            vm_id: self.id,
                            cid,
                            config: configuration(c, self.spec, self.network),
                        },
                    ),
                    ..self
                }.to(SandboxPhase::Prepare),
                None => self.to(SandboxPhase::Failed(SandboxError::Config)),
            },
            _ => self,
        }
    }

    /// The state after something succeeded or failed.
    pub open spec fn after_outcome(self, ok: bool) -> SandboxView {
        self.to(
            match self.phase {
                SandboxPhase::Prepare => if ok {
                    SandboxPhase::StartTpm
                } else {
                    SandboxPhase::Failed(SandboxError::Prepare)
                },
                SandboxPhase::StartTpm => if ok {
                    SandboxPhase::Spawn
                } else {
                    SandboxPhase::Failed(SandboxError::Tpm)
                },
                SandboxPhase::Spawn => if ok {
                    SandboxPhase::WaitReady
                } else {
                    SandboxPhase::Failed(SandboxError::Spawn)
                },
                SandboxPhase::WaitReady => if ok {
                    SandboxPhase::Ready
                } else {
                    SandboxPhase::Failed(SandboxError::NotReady)
                },
                p => p,
            },
        )
    }
}

/// A VM that is ready to be registered for its pod.
#[derive(Debug)]
pub struct SandboxVm {
    pub vm: VmManager,
    pub tap_name: Option<String>,
    pub tap_mac: Option<String>,
    pub netns: Option<String>,
    pub cgroups_path: Option<String>,
    /// The most vCPUs the VM may be given, where that is known.
    pub max_vcpus: Option<u32>,
}

/// The most vCPUs that a sandbox's VM may be given: those that the pod's annotations name, or else
/// those of the host.
pub open spec fn most_vcpus(
    config: RuntimeConfigView,
    spec: SandboxSpec,
    host_cpus: Option<u32>,
) -> Option<u32> {
    match annotations::vcpu_ceiling(
        config.default_vcpus,
        annotations::resolved(spec.annotations@, annotations::SUFFIX_MAX_VCPUS@),
    ) {
        Some(n) => Some(n),
        None => host_cpus,
    }
}

impl SandboxStart {
    /// The VM's paths are its own.
    pub closed spec fn inv(&self) -> bool {
        self.vm matches Some(v) ==> v.wf()
    }

    /// Starts on a sandbox of which the bundle is at `bundle`.
    pub fn new(id: &str, bundle: &str) -> (res: Self)
        ensures
            res.inv(),
            res@.wf(),
            res@.id == id@,
            res@.bundle == bundle@,
            res@.phase == SandboxPhase::ReadSpec,
    {
        SandboxStart {
            id: id.to_owned(),
            bundle: bundle.to_owned(),
            spec: oci::parse_sandbox_spec(None),
            network: None,
            vm: None,
            phase: SandboxPhase::ReadSpec,
        }
    }

    /// The VM, once it is configured.
    pub fn vm(&self) -> (res: Option<&VmManager>)
        requires
            self.inv(),
        ensures
            match res {
                Some(v) => self@.vm == Some(v@) && v.wf(),
                None => self@.vm is None,
            },
    {
        match &self.vm {
            Some(v) => Some(v),
            None => None,
        }
    }

    /// What to do next.
    pub fn action(&self) -> (res: SandboxAction)
        requires
            self@.wf(),
        ensures
            self@.asks(res),
    {
        let netns: Option<String> = match &self.spec.netns {
            Some(n) => Some(n.clone()),
            None => None,
        };
        match self.phase {
            SandboxPhase::ReadSpec => SandboxAction::ReadText(
                paths::join(self.bundle.as_str(), "config.json"),
            ),
            SandboxPhase::SetUpNetwork(_) => match netns {
                Some(n) => SandboxAction::SetUpNetwork(n),
                None => vstd::pervasive::unreached(),
            },
            SandboxPhase::Pause(_) => SandboxAction::Sleep(tap::SETUP_PAUSE_MS),
            SandboxPhase::LoadConfig => SandboxAction::LoadConfig,
            SandboxPhase::Prepare => SandboxAction::Prepare,
            SandboxPhase::StartTpm => SandboxAction::StartTpm,
            SandboxPhase::Spawn => SandboxAction::Spawn(netns),
            SandboxPhase::WaitReady => SandboxAction::WaitReady,
            SandboxPhase::Ready => SandboxAction::Ready,
            SandboxPhase::Failed(e) => SandboxAction::Fail(e),
        }
    }

    /// Takes in the text of the specification, where it could be read. Without a network namespace
    /// no network is set up.
    pub fn on_spec(&mut self, data: Option<&str>)
        requires
            old(self).inv(),
            old(self)@.wf(),
            old(self)@.phase == SandboxPhase::ReadSpec,
        ensures
            final(self).inv(),
            final(self)@.wf(),
            oci::sandbox_spec(oci::document_or_null(text::opt_str(data)), final(self)@.spec),
            final(self)@ == (SandboxView {
                spec: final(self)@.spec,
                phase: if final(self)@.spec.netns is Some {
                    SandboxPhase::SetUpNetwork(0)
                } else {
                    SandboxPhase::LoadConfig
                },
                ..old(self)@
            }),
    {
        let spec: SandboxSpec = oci::parse_sandbox_spec(data);
        self.phase = match &spec.netns {
            Some(_) => SandboxPhase::SetUpNetwork(0),
            None => SandboxPhase::LoadConfig,
        };
        self.spec = spec;
    }

    /// Takes in the network, where it could be set up.
    pub fn on_network(&mut self, network: Option<TapInfo>)
        requires
            old(self).inv(),
            old(self)@.wf(),
            network matches Some(n) ==> net::prefix_of(n.ip_cidr@) <= 32,
        ensures
            final(self).inv(),
            final(self)@.wf(),
            final(self)@ == old(self)@.after_network(network_view(network)),
    {
        if let SandboxPhase::SetUpNetwork(n) = self.phase {
            match network {
                Some(i) => {
                    self.network = Some(i);
                    self.phase = SandboxPhase::LoadConfig;
                },
                None => {
                    self.phase = match tap::after_failed_setup(n) {
                        Some(_) => SandboxPhase::Pause(n),
                        None => SandboxPhase::LoadConfig,
                    };
                },
            }
        }
    }

    /// Takes in that the pause is over.
    pub fn on_pause(&mut self)
        requires
            old(self).inv(),
            old(self)@.wf(),
        ensures
            final(self).inv(),
            final(self)@.wf(),
            final(self)@ == old(self)@.after_pause(),
    {
        if let SandboxPhase::Pause(n) = self.phase {
            self.phase = SandboxPhase::SetUpNetwork(n + 1);
        }
    }

    /// Takes in the runtime configuration, where it could be loaded, and configures the VM.
    pub fn on_config(&mut self, loaded: Option<RuntimeConfig>, cids: &mut CidAllocator)
        requires
            old(self).inv(),
            old(self)@.wf(),
            old(self)@.phase == SandboxPhase::LoadConfig,
        ensures
            final(self).inv(),
            final(self)@.wf(),
            final(self)@ == old(self)@.after_config(
                match loaded {
                    Some(c) => Some(c@),
                    None => None,
                },
                old(cids).upcoming(),
            ),
            final(cids).upcoming() == if loaded is Some {
                old(cids).upcoming().wrapping_add(1)
            } else {
                old(cids).upcoming()
            },
    {
        match loaded {
            Some(c) => {
                let annotated: RuntimeConfig = annotations::apply_annotations(
                    c,
                    &self.spec.annotations,
                );
                let limited: RuntimeConfig = annotations::apply_resource_limits(
                    annotated,
                    self.spec.mem_request,
                    self.spec.mem_limit,
                );
                let mut vm: VmManager = VmManager::new(self.id.clone(), limited, cids);
                if let Some(n) = &self.network {
                    let param: String = net::kernel_ip_param(
                        n.ip_cidr.as_str(),
                        n.gateway.as_str(),
                    );
                    vm.append_kernel_args(param.as_str());
                }
                self.vm = Some(vm);
                self.phase = SandboxPhase::Prepare;
            },
            None => {
                self.phase = SandboxPhase::Failed(SandboxError::Config);
            },
        }
    }

    /// Takes in whether the last action succeeded.
    pub fn on_outcome(&mut self, ok: bool)
        requires
            old(self).inv(),
            old(self)@.wf(),
        ensures
            final(self).inv(),
            final(self)@.wf(),
            final(self)@ == old(self)@.after_outcome(ok),
    {
        let next: SandboxPhase = match self.phase {
            SandboxPhase::Prepare => if ok {
                SandboxPhase::StartTpm
            } else {
                SandboxPhase::Failed(SandboxError::Prepare)
            },
            SandboxPhase::StartTpm => if ok {
                SandboxPhase::Spawn
            } else {
                SandboxPhase::Failed(SandboxError::Tpm)
            },
            SandboxPhase::Spawn => if ok {
                SandboxPhase::WaitReady
            } else {
                SandboxPhase::Failed(SandboxError::Spawn)
            },
            SandboxPhase::WaitReady => if ok {
                SandboxPhase::Ready
            } else {
                SandboxPhase::Failed(SandboxError::NotReady)
            },
            p => p,
        };
        self.phase = next;
    }

    /// Hands over the VM with what later steps need of the sandbox. `host_cpus` is the number of
    /// CPUs of the host, where it is known.
    pub fn finish(self, host_cpus: Option<u32>) -> (res: SandboxVm)
        requires
            self.inv(),
            self@.wf(),
            self@.phase == SandboxPhase::Ready,
        ensures
            res.vm.wf(),
            self@.vm == Some(res.vm@),
            text::opt_string(res.tap_name) == match self@.network {
                Some(n) => Some(n.tap),
                None => None,
            },
            text::opt_string(res.tap_mac) == match self@.network {
                Some(n) => Some(n.mac),
                None => None,
            },
            text::opt_string(res.netns) == text::opt_string(self@.spec.netns),
            text::opt_string(res.cgroups_path) == text::opt_string(self@.spec.cgroups_path),
            res.max_vcpus == most_vcpus(res.vm@.config, self@.spec, host_cpus),
    {
        let (tap_name, tap_mac) = match self.network {
            Some(n) => (Some(n.tap_name), Some(n.mac)),
            None => (None, None),
        };
        match self.vm {
            Some(vm) => {
                let max_vcpus: Option<u32> = match annotations::max_vcpus_from_annotations(
                    vm.config(),
                    &self.spec.annotations,
                ) {
                    Some(n) => Some(n),
                    None => host_cpus,
                };
                SandboxVm {
                    vm,
                    tap_name,
                    tap_mac,
                    netns: self.spec.netns,
                    cgroups_path: self.spec.cgroups_path,
                    max_vcpus,
                }
            },
            None => vstd::pervasive::unreached(),
        }
    }
}

/// A VM may be given just as many vCPUs as a valid annotation names, whatever the host has, and
/// never fewer than it boots with.
pub proof fn law_annotated_vcpus_are_ceiling(
    config: RuntimeConfigView,
    spec: SandboxSpec,
    host_cpus: Option<u32>,
)
    ensures
        ({
            let asked = annotations::vcpu_ceiling(
                config.default_vcpus,
                annotations::resolved(spec.annotations@, annotations::SUFFIX_MAX_VCPUS@),
            );
            let most = vm::max_vcpus_spec(
                config.default_vcpus,
                most_vcpus(config, spec, host_cpus),
            );
            &&& asked matches Some(n) ==> most == n
            &&& most >= config.default_vcpus
        }),
{
}

/// A pod whose network cannot be set up still gets its VM: after the last attempt fails, the
/// sandbox goes on without a network.
pub proof fn law_sandbox_starts_without_network(s: SandboxView, n: nat)
    requires
        s.phase == SandboxPhase::SetUpNetwork(0),
        s.network is None,
        n < tap::SETUP_ATTEMPTS,
    ensures
        n + 1 < tap::SETUP_ATTEMPTS ==> after_failures(s, n) == s.to(SandboxPhase::Pause(n as u32)),
        n + 1 == tap::SETUP_ATTEMPTS ==> after_failures(s, n) == s.to(SandboxPhase::LoadConfig),
    decreases n,
{
    if n > 0 {
        law_sandbox_starts_without_network(s, (n - 1) as nat);
    }
}

/// The state after the first attempt and `n` more have failed.
pub open spec fn after_failures(s: SandboxView, n: nat) -> SandboxView
    decreases n,
{
    if n == 0 {
        s.after_network(None)
    } else {
        after_failures(s, (n - 1) as nat).after_pause().after_network(None)
    }
}

/// The VM of a sandbox is named after it, has a guest number of its own, and is configured as the
/// runtime is, changed by the annotations, the resources and the network of the pod: with a network,
/// the kernel is told of it behind its other parameters, and without one it is told nothing.
pub proof fn law_sandbox_configuration(
    s: SandboxView,
    loaded: RuntimeConfigView,
    cid: u64,
)
    requires
        s.phase == SandboxPhase::LoadConfig,
    ensures
        s.after_config(None, cid).phase == SandboxPhase::Failed(SandboxError::Config),
        s.after_config(Some(loaded), cid).phase == SandboxPhase::Prepare,
        s.after_config(Some(loaded), cid).vm matches Some(v) && v.vm_id == s.id && v.cid == cid
            && v.config == configuration(loaded, s.spec, s.network),
        configuration(loaded, s.spec, None) == annotations::with_limit(
            annotations::with_request(
                annotations::applied(loaded, s.spec.annotations@),
                s.spec.mem_request,
            ),
            s.spec.mem_limit,
        ),
        s.network matches Some(n) ==> configuration(loaded, s.spec, s.network).kernel_args
            == configuration(loaded, s.spec, None).kernel_args + net::ip_parameter(
            n.cidr,
            n.gateway,
        ),
        configuration(loaded, s.spec, s.network) == (RuntimeConfigView {
            kernel_args: configuration(loaded, s.spec, s.network).kernel_args,
            ..configuration(loaded, s.spec, None)
        }),
{
}

/// What the memory of a sandbox comes to: a request of at least 128 MiB is its boot memory, and with
/// a limit above the boot memory the VM can grow to just that limit.
pub proof fn law_sandbox_memory(
    loaded: RuntimeConfigView,
    spec: SandboxSpec,
    network: Option<NetworkView>,
)
    ensures
        ({
            let c = configuration(loaded, spec, network);
            &&& spec.mem_request matches Some(n) ==> n >= 128 ==> c.default_memory_mb == n
            &&& spec.mem_limit matches Some(n) ==> n > c.default_memory_mb ==> c.default_memory_mb
                + c.hotplug_memory_mb == n
        }),
{
}

/// A sandbox is ready once its directories are prepared, its TPM and its hypervisor started and the
/// hypervisor answers, in this order; the first of these that fails fails the sandbox.
pub proof fn law_sandbox_steps(s: SandboxView)
    ensures
        s.phase == SandboxPhase::Prepare ==> s.after_outcome(true).phase == SandboxPhase::StartTpm
            && s.after_outcome(false).phase == SandboxPhase::Failed(SandboxError::Prepare),
        s.phase == SandboxPhase::StartTpm ==> s.after_outcome(true).phase == SandboxPhase::Spawn
            && s.after_outcome(false).phase == SandboxPhase::Failed(SandboxError::Tpm),
        s.phase == SandboxPhase::Spawn ==> s.after_outcome(true).phase == SandboxPhase::WaitReady
            && s.after_outcome(false).phase == SandboxPhase::Failed(SandboxError::Spawn),
        s.phase == SandboxPhase::WaitReady ==> s.after_outcome(true).phase == SandboxPhase::Ready
            && s.after_outcome(false).phase == SandboxPhase::Failed(SandboxError::NotReady),
        forall|ok: bool|
            #![trigger s.after_outcome(ok)]
            s.after_outcome(ok).phase == SandboxPhase::Ready ==> s.phase == SandboxPhase::Ready || (
            s.phase == SandboxPhase::WaitReady && ok),
        forall|ok: bool|
            #![trigger s.after_outcome(ok)]
            s.after_outcome(ok).vm == s.vm && s.after_outcome(ok).network == s.network
                && s.after_outcome(ok).spec == s.spec,
{
}

/// The network is set up in the namespace that the specification names, and the hypervisor runs in
/// the same one. A network that is set up is the one the VM gets; a setup that fails is repeated
/// after half a second, ten times in all.
pub proof fn law_sandbox_network(s: SandboxView, n: NetworkView, k: u32, a: SandboxAction)
    ensures
        s.phase == SandboxPhase::SetUpNetwork(k) && s.asks(a) ==> (
        a matches SandboxAction::SetUpNetwork(ns) && (s.spec.netns matches Some(own) && ns@ == own@)),
        s.phase == SandboxPhase::Spawn && s.asks(a) ==> (a matches SandboxAction::Spawn(ns) && (
        ns is Some <==> s.spec.netns is Some) && (s.spec.netns matches Some(own) ==> (
        ns matches Some(x) && x@ == own@))),
        s.phase == SandboxPhase::SetUpNetwork(k) ==> s.after_network(Some(n)).network == Some(n)
            && s.after_network(Some(n)).phase == SandboxPhase::LoadConfig,
        s.phase == SandboxPhase::SetUpNetwork(k) && k < 9 && s.after_network(None).asks(a) ==> a
            == SandboxAction::Sleep(500) && s.after_network(None).after_pause().phase
            == SandboxPhase::SetUpNetwork((k + 1) as u32),
        s.phase == SandboxPhase::SetUpNetwork(9) ==> s.after_network(None).phase
            == SandboxPhase::LoadConfig && s.after_network(None).network == s.network,
{
}

/// The processors a VM may be given are those of its annotation, or else those of the host.
pub proof fn law_most_vcpus(
    config: RuntimeConfigView,
    spec: SandboxSpec,
    host_cpus: Option<u32>,
    v: Seq<char>,
    n: nat,
)
    ensures
        annotations::given(spec.annotations@, "config.hypervisor.default_max_vcpus"@, v)
            && text::parsed(v, u32::MAX as nat) == Some(n) && n > 0 && n >= config.default_vcpus
            ==> most_vcpus(config, spec, host_cpus) == Some(n as u32),
        !annotations::is_given(spec.annotations@, "config.hypervisor.default_max_vcpus"@)
            ==> most_vcpus(config, spec, host_cpus) == host_cpus,
{
}

/// In each phase of its start a sandbox asks for what the phase is named for: its specification from
/// its bundle, its configuration, its directories, its TPM, its hypervisor and, in the end, to be
/// registered.
pub proof fn law_sandbox_asks(s: SandboxView, a: SandboxAction)
    requires
        s.asks(a),
    ensures
        s.phase == SandboxPhase::ReadSpec ==> (a matches SandboxAction::ReadText(f) && f@
            == paths::joined(s.bundle, "config.json"@)),
        s.phase == SandboxPhase::LoadConfig <==> a == SandboxAction::LoadConfig,
        s.phase == SandboxPhase::Prepare <==> a == SandboxAction::Prepare,
        s.phase == SandboxPhase::StartTpm <==> a == SandboxAction::StartTpm,
        s.phase == SandboxPhase::WaitReady <==> a == SandboxAction::WaitReady,
        s.phase == SandboxPhase::Ready <==> a == SandboxAction::Ready,
        s.phase is SetUpNetwork <==> a is SetUpNetwork,
        s.phase is Spawn <==> a is Spawn,
        s.phase matches SandboxPhase::Failed(e) ==> a == SandboxAction::Fail(e),
{
}

} // verus!
