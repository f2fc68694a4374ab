//! Which hypervisor the host offers.

use vstd::prelude::*;

verus! {

/// Detected hypervisor backend.
#[derive(Debug, Clone, Copy, PartialEq, Eq, Structural)]
pub enum HypervisorBackend {
    Kvm,
    Mshv,
    Unknown,
}

impl HypervisorBackend {
    /// The name of the backend.
    pub open spec fn name(self) -> Seq<char> {
        match self {
            HypervisorBackend::Kvm => "KVM"@,
            HypervisorBackend::Mshv => "MSHV"@,
            HypervisorBackend::Unknown => "unknown"@,
        }
    }

    /// The name of the backend, as it is printed.
    pub fn display(&self) -> (res: String)
        ensures
            res@ == self.name(),
    {
        match self {
            HypervisorBackend::Kvm => "KVM".to_owned(),
            HypervisorBackend::Mshv => "MSHV".to_owned(),
            HypervisorBackend::Unknown => "unknown".to_owned(),
        }
    }
}

/// The backend of a host, from the presence of `/dev/kvm` and of `/dev/mshv`. KVM comes first.
pub fn detect_hypervisor(kvm_present: bool, mshv_present: bool) -> (res: HypervisorBackend)
    ensures
        res == if kvm_present {
            HypervisorBackend::Kvm
        } else if mshv_present {
            HypervisorBackend::Mshv
        } else {
            HypervisorBackend::Unknown
        },
        res == backend_of(kvm_present, mshv_present),
{
    if kvm_present {
        HypervisorBackend::Kvm
    } else if mshv_present {
        HypervisorBackend::Mshv
    } else {
        HypervisorBackend::Unknown
    }
}

/// Whether some user may read or write a device with these permission bits.
pub open spec fn any_access(mode: u32) -> bool {
    mode & 0x1b6 != 0
}

/// The outcome of a check for virtualization.
#[derive(Debug, Clone, Copy, PartialEq, Eq, Structural)]
pub struct VirtualizationSupport {
    /// Whether VMs can run.
    pub supported: bool,
    /// Whether the KVM device exists but nobody may open it.
    pub kvm_locked: bool,
}

/// Whether the host can run VMs. `kvm_mode` holds the permission bits of `/dev/kvm`, where its
/// metadata could be read; a KVM device without permissions counts all the same.
pub fn check_virtualization_support(
    backend: HypervisorBackend,
    kvm_mode: Option<u32>,
) -> (res: VirtualizationSupport)
    ensures
        res.supported == match backend {
            HypervisorBackend::Kvm => kvm_mode is Some,
            HypervisorBackend::Mshv => true,
            HypervisorBackend::Unknown => false,
        },
        res.kvm_locked == (backend == HypervisorBackend::Kvm && (kvm_mode matches Some(m)
            && !any_access(m))),
        res == support_of(backend, kvm_mode),
{
    match backend {
        HypervisorBackend::Kvm => match kvm_mode {
            Some(mode) => VirtualizationSupport { supported: true, kvm_locked: mode & 0o666 == 0 },
            None => VirtualizationSupport { supported: false, kvm_locked: false },
        },
        HypervisorBackend::Mshv => VirtualizationSupport { supported: true, kvm_locked: false },
        HypervisorBackend::Unknown => VirtualizationSupport { supported: false, kvm_locked: false },
    }
}

/// The hypervisor of a host, from the devices it has.
pub open spec fn backend_of(kvm_present: bool, mshv_present: bool) -> HypervisorBackend {
    if kvm_present {
        HypervisorBackend::Kvm
    } else if mshv_present {
        HypervisorBackend::Mshv
    } else {
        HypervisorBackend::Unknown
    }
}

/// What a host's hypervisor is good for.
pub open spec fn support_of(
    backend: HypervisorBackend,
    kvm_mode: Option<u32>,
) -> VirtualizationSupport {
    VirtualizationSupport {
        supported: match backend {
            HypervisorBackend::Kvm => kvm_mode is Some,
            HypervisorBackend::Mshv => true,
            HypervisorBackend::Unknown => false,
        },
        kvm_locked: backend == HypervisorBackend::Kvm && (kvm_mode matches Some(m)
            && !any_access(m)),
    }
}

/// KVM is preferred where both are there. VMs can run exactly where a hypervisor is there, and with
/// KVM its device too; the device counts as locked exactly where nobody may read or write it.
pub proof fn law_virtualization(kvm: bool, mshv: bool, mode: u32)
    ensures
        backend_of(kvm, mshv) == HypervisorBackend::Kvm <==> kvm,
        backend_of(kvm, mshv) == HypervisorBackend::Mshv <==> !kvm && mshv,
        backend_of(kvm, mshv) == HypervisorBackend::Unknown <==> !kvm && !mshv,
        support_of(backend_of(kvm, mshv), Some(mode)).supported == (kvm || mshv),
        !support_of(HypervisorBackend::Kvm, None).supported,
        support_of(HypervisorBackend::Kvm, Some(0)).kvm_locked,
        !support_of(HypervisorBackend::Kvm, Some(0o600)).kvm_locked,
        !support_of(HypervisorBackend::Kvm, Some(0o666)).kvm_locked,
        support_of(HypervisorBackend::Kvm, Some(0o111)).kvm_locked,
        !support_of(HypervisorBackend::Mshv, Some(0)).kvm_locked,
        any_access(mode) <==> mode & 0o600 != 0 || mode & 0o060 != 0 || mode & 0o006 != 0,
{
    assert(0u32 & 0x1b6 == 0) by (bit_vector);
    assert(0o600u32 & 0x1b6 != 0) by (bit_vector);
    assert(0o666u32 & 0x1b6 != 0) by (bit_vector);
    assert(0o111u32 & 0x1b6 == 0) by (bit_vector);
    assert((mode & 0x1b6 != 0) <==> (mode & 0o600 != 0 || mode & 0o060 != 0 || mode & 0o006 != 0))
        by (bit_vector);
}

/// Each hypervisor has a name of its own.
pub proof fn law_backend_names(a: HypervisorBackend, b: HypervisorBackend)
    ensures
        a != b ==> a.name() != b.name(),
        HypervisorBackend::Kvm.name() == "KVM"@,
        HypervisorBackend::Mshv.name() == "MSHV"@,
{
    reveal_strlit("KVM");
    reveal_strlit("MSHV");
    reveal_strlit("unknown");
    assert("KVM"@.len() == 3 && "MSHV"@.len() == 4 && "unknown"@.len() == 7);
}

} // verus!
