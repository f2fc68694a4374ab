//! A pool of VMs that are booted before they are needed.

use crate::text;
use crate::types::{RuntimeConfig, RuntimeConfigView};
use std::collections::VecDeque;
use vstd::prelude::*;

verus! {

/// A queue of booted VMs. The one that has waited longest is handed out first.
pub struct VmPool<V> {
    available: VecDeque<V>,
    config: RuntimeConfig,
    target_size: usize,
}

/// What a pool holds.
pub struct VmPoolView<V> {
    pub available: Seq<V>,
    pub target: nat,
    /// The configuration of the pool's VMs.
    pub config: RuntimeConfigView,
}

impl<V> View for VmPool<V> {
    type V = VmPoolView<V>;

    closed spec fn view(&self) -> VmPoolView<V> {
        VmPoolView {
            available: self.available@,
            target: self.target_size as nat,
            config: self.config@,
        }
    }
}

impl<V> VmPoolView<V> {
    /// Whether another VM is wanted.
    pub open spec fn wants(self) -> bool {
        self.available.len() < self.target
    }

    /// The pool after an attempt to boot a VM for it.
    pub open spec fn supplied(self, vm: Option<V>) -> VmPoolView<V> {
        match vm {
            Some(v) => VmPoolView { available: self.available.push(v), ..self },
            None => self,
        }
    }
}

impl<V> VmPool<V> {
    /// An empty pool of the configured size.
    pub fn new(config: RuntimeConfig) -> (res: Self)
        ensures
            res@ == (VmPoolView {
                available: Seq::<V>::empty(),
                target: config@.pool_size as nat,
                config: config@,
            }),
    {
        let target_size: usize = config.pool_size;
        VmPool { available: VecDeque::new(), config, target_size }
    }

    /// The configuration of the pool's VMs.
    pub fn config(&self) -> (res: &RuntimeConfig)
        ensures
            res@ == self@.config,
    {
        &self.config
    }

    /// Whether the pool wants another VM. Warming and refilling boot VMs as long as it does.
    pub fn wants_more(&self) -> (res: bool)
        ensures
            res == self@.wants(),
    {
        self.available.len() < self.target_size
    }

    /// Takes in what came of an attempt to boot a VM, and says whether to boot another: not after
    /// a failure.
    pub fn refill(&mut self, booted: Option<V>) -> (go_on: bool)
        requires
            old(self)@.wants(),
        ensures
            final(self)@ == old(self)@.supplied(booted),
            go_on == (booted is Some && final(self)@.wants()),
    {
        match booted {
            Some(v) => {
                self.available.push_back(v);
                self.wants_more()
            },
            None => false,
        }
    }

    /// Hands out the VM that has waited longest, where there is one.
    pub fn try_acquire(&mut self) -> (res: Option<V>)
        ensures
            match res {
                Some(v) => {
                    &&& old(self)@.available.len() > 0
                    &&& v == old(self)@.available[0]
                    &&& final(self)@ == (VmPoolView {
                        available: old(self)@.available.skip(1),
                        ..old(self)@
                    })
                },
                None => old(self)@.available.len() == 0 && final(self)@ == old(self)@,
            },
            (res, final(self)@) == old(self)@.taken(),
    {
        let ghost before = self.available@;
        let v: Option<V> = self.available.pop_front();
        assert(before.len() > 0 ==> self.available@ =~= before.skip(1));
        v
    }

    /// Hands out all VMs, to be shut down.
    pub fn drain(&mut self) -> (res: Vec<V>)
        ensures
            res@ == old(self)@.available,
            final(self)@ == (VmPoolView { available: Seq::empty(), ..old(self)@ }),
    {
        let mut out: Vec<V> = Vec::new();
        let ghost all = self.available@;
        loop
            invariant_except_break
                out@ + self.available@ == all,
            invariant
                self.target_size == old(self).target_size,
                self.config == old(self).config,
                all == old(self)@.available,
            ensures
                out@ == all,
                self.available@ == Seq::<V>::empty(),
            decreases self.available@.len(),
        {
            let ghost before = self.available@;
            match self.available.pop_front() {
                Some(v) => {
                    let ghost was = out@;
                    out.push(v);
                    proof {
                        assert(before =~= seq![v] + self.available@);
                        assert(out@ + self.available@ =~= was + before);
                    }
                },
                None => {
                    assert(out@ + before =~= out@);
                    break;
                },
            }
        }
        out
    }

    /// Number of VMs in the pool.
    pub fn available_count(&self) -> (res: usize)
        ensures
            res == self@.available.len(),
    {
        self.available.len()
    }

    /// Whether pooling is enabled.
    pub fn is_enabled(&self) -> (res: bool)
        ensures
            res == (self@.target > 0),
    {
        self.target_size > 0
    }
}

/// A lower-case hexadecimal digit.
pub open spec fn is_hex_digit(c: char) -> bool {
    '0' <= c <= '9' || 'a' <= c <= 'f'
}

/// `uuid::Uuid::new_v4`, written without hyphens by `as_simple`: 32 lower-case hexadecimal digits.
/// The thirteenth is the version, 4, and the seventeenth begins with the bits of the variant; the
/// others are random.
#[verifier::external_body]
fn random_uuid() -> (res: String)
    ensures
        res@.len() == 32,
        forall|i: int| 0 <= i < 32 ==> is_hex_digit(#[trigger] res@[i]),
        res@[12] == '4',
        res@[16] == '8' || res@[16] == '9' || res@[16] == 'a' || res@[16] == 'b',
{
    uuid::Uuid::new_v4().as_simple().to_string()
}

/// The name of the pool's VM with this number.
pub fn pool_vm_id(uuid: &str) -> (res: String)
    ensures
        res@ == "pool-"@ + uuid@,
{
    text::join2("pool-", uuid)
}

/// A random name for a VM of the pool.
pub fn new_pool_vm_id() -> (res: String)
    ensures
        res@.len() == 37,
        text::has_prefix(res@, "pool-"@),
        forall|i: int| 5 <= i < 37 ==> is_hex_digit(#[trigger] res@[i]),
        res@[17] == '4',
        res@[21] == '8' || res@[21] == '9' || res@[21] == 'a' || res@[21] == 'b',
{
    let u: String = random_uuid();
    proof {
        reveal_strlit("pool-");
    }
    let id: String = pool_vm_id(u.as_str());
    assert(id@.subrange(0, 5) =~= "pool-"@);
    assert forall|i: int| 5 <= i < 37 implies is_hex_digit(#[trigger] id@[i]) by {
        assert(id@[i] == u@[i - 5]);
    }
    assert(id@[17] == u@[12] && id@[21] == u@[16]);
    id
}

/// How often a connection to a pool VM's agent is tried.
pub const WARM_CONNECT_ATTEMPTS: u32 = 5;

/// The pause after a failed attempt, in milliseconds.
pub const WARM_CONNECT_PAUSE_MS: u64 = 1000;

/// Why a VM could not be booted for the pool.
#[derive(Debug, Clone, Copy, PartialEq, Eq, Structural)]
pub enum WarmError {
    Prepare,
    Tpm,
    Virtiofsd,
    Spawn,
    VirtiofsdNotReady,
    NotReady,
    Boot,
    NoAgent,
    Connect,
}

/// How far a VM for the pool has come.
#[derive(Debug, Clone, Copy, PartialEq, Eq, Structural)]
pub enum WarmPhase {
    /// The VM is being restored from the golden snapshot.
    Restore,
    Prepare,
    StartTpm,
    SpawnVirtiofsd,
    SpawnVmm,
    /// Both sockets are waited for at once.
    WaitSockets,
    Boot,
    WaitAgent,
    /// A connection to the agent is tried; the attempts count from one.
    Connect(u32),
    /// The pause after a failed attempt is being waited out.
    Pause(u32),
    Done,
    Failed(WarmError),
}

/// What came of a step.
#[derive(Debug, Clone, Copy, PartialEq, Eq, Structural)]
pub enum WarmEvent {
    /// Whether the step succeeded.
    Outcome(bool),
    /// Whether virtiofsd's socket appeared, and whether the hypervisor's did.
    Sockets(bool, bool),
    Slept,
}

/// How a VM for the pool comes up: from the golden snapshot where there is one, and else by a boot
/// of its own.
pub fn warm_start(snapshot_ready: bool) -> (res: WarmPhase)
    ensures
        res == if snapshot_ready {
            WarmPhase::Restore
        } else {
            WarmPhase::Prepare
        },
{
    if snapshot_ready {
        WarmPhase::Restore
    } else {
        WarmPhase::Prepare
    }
}

/// The attempts to connect are bounded.
pub open spec fn warm_wf(phase: WarmPhase) -> bool {
    match phase {
        WarmPhase::Connect(n) => 1 <= n <= WARM_CONNECT_ATTEMPTS,
        WarmPhase::Pause(n) => 1 <= n <= WARM_CONNECT_ATTEMPTS,
        _ => true,
    }
}

/// `phase` where a step succeeded, and failure where it did not.
pub open spec fn warm_unless(ok: bool, e: WarmError, phase: WarmPhase) -> WarmPhase {
    if ok {
        phase
    } else {
        WarmPhase::Failed(e)
    }
}

/// The phase after a step. An event that is not waited for changes nothing.
pub open spec fn warmed(phase: WarmPhase, event: WarmEvent) -> WarmPhase {
    match (phase, event) {
        (WarmPhase::Restore, WarmEvent::Outcome(ok)) => if ok {
            WarmPhase::WaitAgent
        } else {
            WarmPhase::Prepare
        },
        (WarmPhase::Prepare, WarmEvent::Outcome(ok)) => warm_unless(
            ok,
            WarmError::Prepare,
            WarmPhase::StartTpm,
        ),
        (WarmPhase::StartTpm, WarmEvent::Outcome(ok)) => warm_unless(
            ok,
            WarmError::Tpm,
            WarmPhase::SpawnVirtiofsd,
        ),
        (WarmPhase::SpawnVirtiofsd, WarmEvent::Outcome(ok)) => warm_unless(
            ok,
            WarmError::Virtiofsd,
            WarmPhase::SpawnVmm,
        ),
        (WarmPhase::SpawnVmm, WarmEvent::Outcome(ok)) => warm_unless(
            ok,
            WarmError::Spawn,
            WarmPhase::WaitSockets,
        ),
        (WarmPhase::WaitSockets, WarmEvent::Sockets(virtiofsd, vmm)) => if !virtiofsd {
            WarmPhase::Failed(WarmError::VirtiofsdNotReady)
        } else {
            warm_unless(vmm, WarmError::NotReady, WarmPhase::Boot)
        },
        (WarmPhase::Boot, WarmEvent::Outcome(ok)) => warm_unless(
            ok,
            WarmError::Boot,
            WarmPhase::WaitAgent,
        ),
        (WarmPhase::WaitAgent, WarmEvent::Outcome(ok)) => warm_unless(
            ok,
            WarmError::NoAgent,
            WarmPhase::Connect(1),
        ),
        (WarmPhase::Connect(n), WarmEvent::Outcome(ok)) => if ok {
            WarmPhase::Done
        } else {
            WarmPhase::Pause(n)
        },
        (WarmPhase::Pause(n), WarmEvent::Slept) => if n < WARM_CONNECT_ATTEMPTS {
            WarmPhase::Connect((n + 1) as u32)
        } else {
            WarmPhase::Failed(WarmError::Connect)
        },
        _ => phase,
    }
}

fn unless(ok: bool, e: WarmError, phase: WarmPhase) -> (res: WarmPhase)
    ensures
        res == warm_unless(ok, e, phase),
{
    if ok {
        phase
    } else {
        WarmPhase::Failed(e)
    }
}

/// Takes in what came of a step of bringing up a VM for the pool. It starts as [`warm_start`] says;
/// a VM that cannot be restored is booted. There is a pause after each failed connection, the last
/// one too.
pub fn create_warm_vm(phase: WarmPhase, event: WarmEvent) -> (res: WarmPhase)
    requires
        warm_wf(phase),
    ensures
        warm_wf(res),
        res == warmed(phase, event),
{
    match (phase, event) {
        (WarmPhase::Restore, WarmEvent::Outcome(ok)) => if ok {
            WarmPhase::WaitAgent
        } else {
            WarmPhase::Prepare
        },
        (WarmPhase::Prepare, WarmEvent::Outcome(ok)) => unless(
            ok,
            WarmError::Prepare,
            WarmPhase::StartTpm,
        ),
        (WarmPhase::StartTpm, WarmEvent::Outcome(ok)) => unless(
            ok,
            WarmError::Tpm,
            WarmPhase::SpawnVirtiofsd,
        ),
        (WarmPhase::SpawnVirtiofsd, WarmEvent::Outcome(ok)) => unless(
            ok,
            WarmError::Virtiofsd,
            WarmPhase::SpawnVmm,
        ),
        (WarmPhase::SpawnVmm, WarmEvent::Outcome(ok)) => unless(
            ok,
            WarmError::Spawn,
            WarmPhase::WaitSockets,
        ),
        (WarmPhase::WaitSockets, WarmEvent::Sockets(virtiofsd, vmm)) => if !virtiofsd {
            WarmPhase::Failed(WarmError::VirtiofsdNotReady)
        } else {
            unless(vmm, WarmError::NotReady, WarmPhase::Boot)
        },
        (WarmPhase::Boot, WarmEvent::Outcome(ok)) => unless(
            ok,
            WarmError::Boot,
            WarmPhase::WaitAgent,
        ),
        (WarmPhase::WaitAgent, WarmEvent::Outcome(ok)) => unless(
            ok,
            WarmError::NoAgent,
            WarmPhase::Connect(1),
        ),
        (WarmPhase::Connect(n), WarmEvent::Outcome(ok)) => if ok {
            WarmPhase::Done
        } else {
            WarmPhase::Pause(n)
        },
        (WarmPhase::Pause(n), WarmEvent::Slept) => if n < WARM_CONNECT_ATTEMPTS {
            WarmPhase::Connect(n + 1)
        } else {
            WarmPhase::Failed(WarmError::Connect)
        },
        _ => phase,
    }
}

/// The phase after some steps.
pub open spec fn warmed_through(phase: WarmPhase, events: Seq<WarmEvent>) -> WarmPhase
    decreases events.len(),
{
    if events.len() == 0 {
        phase
    } else {
        warmed(warmed_through(phase, events.drop_last()), events.last())
    }
}

/// A snapshot that cannot be restored costs nothing but the attempt: whatever follows, the VM
/// comes up as if there were no snapshot.
pub proof fn law_failed_restore_boots(events: Seq<WarmEvent>)
    ensures
        warmed_through(WarmPhase::Restore, seq![WarmEvent::Outcome(false)] + events)
            == warmed_through(WarmPhase::Prepare, events),
    decreases events.len(),
{
    let all = seq![WarmEvent::Outcome(false)] + events;
    if events.len() == 0 {
        assert(all.drop_last() =~= Seq::<WarmEvent>::empty());
        assert(warmed_through(WarmPhase::Restore, all.drop_last()) == WarmPhase::Restore);
    } else {
        assert(all.drop_last() =~= seq![WarmEvent::Outcome(false)] + events.drop_last());
        law_failed_restore_boots(events.drop_last());
    }
}

/// A pool of size zero never wants a VM, and a full one does not either.
pub proof fn law_pool_never_overfills<V>(p: VmPoolView<V>, vm: Option<V>)
    requires
        p.wants(),
    ensures
        p.supplied(vm).available.len() <= p.target,
        p.target > 0,
{
}

/// VMs leave the pool in the order in which they came.
pub proof fn law_pool_is_fifo<V>(p: VmPoolView<V>, vm: V)
    ensures
        p.available.len() > 0 ==> p.supplied(Some(vm)).available[0] == p.available[0],
        p.supplied(Some(vm)).available.skip(1) == if p.available.len() > 0 {
            p.available.skip(1).push(vm)
        } else {
            Seq::empty()
        },
{
    let after = p.supplied(Some(vm)).available;
    if p.available.len() > 0 {
        assert(after.skip(1) =~= p.available.skip(1).push(vm));
    } else {
        assert(after.skip(1) =~= Seq::<V>::empty());
    }
}

/// A pool wants another VM exactly as long as it holds fewer than it is to hold; a VM that was
/// booted is added behind those that wait, and one that was not changes nothing.
pub proof fn law_pool_supply<V>(p: VmPoolView<V>, vm: V)
    ensures
        p.wants() <==> p.available.len() < p.target,
        p.supplied(Some(vm)).available.len() == p.available.len() + 1,
        p.supplied(Some(vm)).available.last() == vm,
        p.supplied(Some(vm)).available.drop_last() == p.available,
        p.supplied(None::<V>) == p,
        p.supplied(Some(vm)).target == p.target && p.supplied(Some(vm)).config == p.config,
{
    assert(p.supplied(Some(vm)).available.drop_last() =~= p.available);
}

/// A warm VM is one whose agent was reached: the steps that lead there follow each other, a failed
/// step fails the VM with what it was about, and a connection is tried five times.
pub proof fn law_warm_steps(n: u32, event: WarmEvent, phase: WarmPhase)
    ensures
        warmed(phase, event) == WarmPhase::Done ==> phase == WarmPhase::Done || (phase is Connect
            && event == WarmEvent::Outcome(true)),
        warmed(WarmPhase::Restore, WarmEvent::Outcome(true)) == WarmPhase::WaitAgent,
        warmed(WarmPhase::Restore, WarmEvent::Outcome(false)) == WarmPhase::Prepare,
        warmed(WarmPhase::Prepare, WarmEvent::Outcome(true)) == WarmPhase::StartTpm,
        warmed(WarmPhase::Prepare, WarmEvent::Outcome(false)) == WarmPhase::Failed(
            WarmError::Prepare,
        ),
        warmed(WarmPhase::StartTpm, WarmEvent::Outcome(true)) == WarmPhase::SpawnVirtiofsd,
        warmed(WarmPhase::StartTpm, WarmEvent::Outcome(false)) == WarmPhase::Failed(
            WarmError::Tpm,
        ),
        warmed(WarmPhase::SpawnVirtiofsd, WarmEvent::Outcome(true)) == WarmPhase::SpawnVmm,
        warmed(WarmPhase::SpawnVirtiofsd, WarmEvent::Outcome(false)) == WarmPhase::Failed(
            WarmError::Virtiofsd,
        ),
        warmed(WarmPhase::SpawnVmm, WarmEvent::Outcome(true)) == WarmPhase::WaitSockets,
        warmed(WarmPhase::SpawnVmm, WarmEvent::Outcome(false)) == WarmPhase::Failed(
            WarmError::Spawn,
        ),
        warmed(WarmPhase::WaitSockets, WarmEvent::Sockets(true, true)) == WarmPhase::Boot,
        warmed(WarmPhase::WaitSockets, WarmEvent::Sockets(true, false)) == WarmPhase::Failed(
            WarmError::NotReady,
        ),
        warmed(WarmPhase::WaitSockets, WarmEvent::Sockets(false, true)) == WarmPhase::Failed(
            WarmError::VirtiofsdNotReady,
        ),
        warmed(WarmPhase::WaitSockets, WarmEvent::Sockets(false, false)) == WarmPhase::Failed(
            WarmError::VirtiofsdNotReady,
        ),
        warmed(WarmPhase::Boot, WarmEvent::Outcome(true)) == WarmPhase::WaitAgent,
        warmed(WarmPhase::Boot, WarmEvent::Outcome(false)) == WarmPhase::Failed(WarmError::Boot),
        warmed(WarmPhase::WaitAgent, WarmEvent::Outcome(true)) == WarmPhase::Connect(1),
        warmed(WarmPhase::WaitAgent, WarmEvent::Outcome(false)) == WarmPhase::Failed(
            WarmError::NoAgent,
        ),
        warmed(WarmPhase::Connect(n), WarmEvent::Outcome(true)) == WarmPhase::Done,
        warmed(WarmPhase::Connect(n), WarmEvent::Outcome(false)) == WarmPhase::Pause(n),
        n < 5 ==> warmed(WarmPhase::Pause(n), WarmEvent::Slept) == WarmPhase::Connect(
            (n + 1) as u32,
        ),
        n == 5 ==> warmed(WarmPhase::Pause(n), WarmEvent::Slept) == WarmPhase::Failed(
            WarmError::Connect,
        ),
{
}

impl<V> VmPoolView<V> {
    /// The VM that is handed out, where there is one, and the pool without it.
    pub open spec fn taken(self) -> (Option<V>, VmPoolView<V>) {
        if self.available.len() > 0 {
            (
                Some(self.available[0]),
                VmPoolView { available: self.available.skip(1), ..self },
            )
        } else {
            (None, self)
        }
    }
}

/// A VM is handed out exactly where one is there: the one that has waited longest. It is handed out
/// once, and a pool that was full wants another then. What is put into an empty pool comes out of it.
pub proof fn law_pool_hands_out<V>(p: VmPoolView<V>, vm: V)
    ensures
        p.taken().0 is Some <==> p.available.len() > 0,
        p.available.len() > 0 ==> p.taken().0 == Some(p.available[0])
            && p.taken().1.available.len() == p.available.len() - 1 && forall|i: int|
            0 <= i < p.available.len() - 1 ==> #[trigger] p.taken().1.available[i] == p.available[i
                + 1],
        p.available.len() == 0 ==> p.supplied(Some(vm)).taken().0 == Some(vm),
        p.available.len() == 0 ==> p.taken().1 == p,
        p.available.len() > 0 && p.available.len() <= p.target ==> p.taken().1.wants(),
        p.taken().1.target == p.target,
{
}

} // verus!
