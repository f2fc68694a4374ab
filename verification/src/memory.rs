//! Dynamic VM memory: when to grow a VM and when to give memory back.
//!
//! - Growth: when the guest signals memory pressure, or when available memory is below a fifth of
//!   the total, memory grows in 128 MiB steps up to the configured maximum.
//! - Reclaim: when available memory stays above half of the total for 60 s, memory shrinks in
//!   128 MiB steps down to the boot memory.
//!
//! The monitor is a state machine. It asks for one action at a time and is told how that went.

use crate::paths;
use crate::pressure::PRESSURE_SIGNAL_FILE;
use crate::text;
use vstd::prelude::*;

verus! {

/// Growth and reclaim step: 128 MiB.
pub const RESIZE_STEP_BYTES: u64 = 134217728;

/// How long available memory must stay above half of the total before memory is given back.
pub const RECLAIM_COOLDOWN_MS: u64 = 60000;

/// How often guest memory is polled.
pub const POLL_INTERVAL_MS: u64 = 5000;

/// How long to pause after reacting to a pressure signal.
pub const PRESSURE_PAUSE_MS: u64 = 1000;

/// Configuration for the memory monitor.
#[derive(Debug)]
pub struct MemoryMonitorConfig {
    /// Boot memory in bytes (floor: never shrink below this).
    pub boot_memory_bytes: u64,
    /// Maximum memory in bytes (ceiling: never grow above this).
    pub max_memory_bytes: u64,
    /// API socket path for resize calls.
    pub api_socket: String,
    /// Vsock socket path for agent memory queries.
    pub vsock_socket: String,
    /// Shared directory path, where the agent writes its pressure signal.
    pub shared_dir: String,
}

impl MemoryMonitorConfig {
    /// The file whose presence signals memory pressure in the guest.
    pub fn pressure_signal_path(&self) -> (res: String)
        ensures
            res@ == paths::joined(self.shared_dir@, PRESSURE_SIGNAL_FILE@),
    {
        paths::join(self.shared_dir.as_str(), PRESSURE_SIGNAL_FILE)
    }
}

/// What the monitor is waiting for.
#[derive(Debug, Clone, Copy, PartialEq, Eq, Structural)]
pub enum Phase {
    /// The presence of the pressure signal.
    Signal,
    /// The end of the poll interval.
    Poll,
    /// The guest's memory figures.
    Figures,
    /// The outcome of a resize to this size, asked for because of pressure.
    PressureResize(u64),
    /// The outcome of a resize to this size, asked for because of the guest's figures.
    PolledResize(u64),
    /// The end of the pause after a pressure resize.
    Pause,
    /// Nothing: the monitor has stopped.
    Stopped,
}

/// What happened.
#[derive(Debug, Clone, Copy, PartialEq, Eq, Structural)]
pub enum MonitorEvent {
    /// Whether the pressure signal was there.
    Signal(bool),
    /// The interval or the pause is over.
    TimeUp,
    /// The monitor is to stop.
    Shutdown,
    /// The guest's figures, in KiB, and the time in milliseconds at which they were read.
    Figures { total_kb: u64, available_kb: u64, now_ms: u64 },
    /// The guest did not answer.
    NoFigures,
    /// Whether the resize succeeded.
    Resized(bool),
}

/// What to do next.
#[derive(Debug, Clone, Copy, PartialEq, Eq, Structural)]
pub enum MonitorAction {
    /// Look for the pressure signal, and remove it.
    CheckSignal,
    /// Wait this long, or until shutdown.
    Wait(u64),
    /// Wait this long.
    Pause(u64),
    /// Ask the guest for its memory figures.
    QueryGuest,
    /// Resize the VM's memory to this many bytes.
    Resize(u64),
    /// Stop.
    Stop,
}

/// The state of the monitor.
#[derive(Debug, Clone, Copy, PartialEq, Eq, Structural)]
pub struct MemoryMonitor {
    pub boot: u64,
    pub max: u64,
    /// The memory the VM has now.
    pub current: u64,
    /// Since when available memory has been above half of the total.
    pub reclaim_since: Option<u64>,
    pub phase: Phase,
}

/// The next size up.
pub open spec fn grown(current: int, max: int) -> int {
    if current + RESIZE_STEP_BYTES <= max {
        current + RESIZE_STEP_BYTES
    } else {
        max
    }
}

/// The next size down.
pub open spec fn shrunk(current: int, boot: int) -> int {
    if current - RESIZE_STEP_BYTES >= boot {
        current - RESIZE_STEP_BYTES
    } else {
        boot
    }
}

/// Available memory is below a fifth of the total.
pub open spec fn scarce(total_kb: u64, available_kb: u64) -> bool {
    available_kb * 5 < total_kb
}

/// Available memory is above half of the total.
pub open spec fn plentiful(total_kb: u64, available_kb: u64) -> bool {
    available_kb * 2 > total_kb
}

impl MemoryMonitor {
    /// The memory is between floor and ceiling, and a resize under way stays there and moves by
    /// at most one step.
    pub open spec fn wf(self) -> bool {
        &&& self.boot <= self.current
        &&& self.current <= self.max || self.current == self.boot
        &&& self.phase matches Phase::PressureResize(n) ==> self.current < n <= self.max && n
            - self.current <= RESIZE_STEP_BYTES
        &&& self.phase matches Phase::PolledResize(n) ==> {
            ||| self.current < n <= self.max && n - self.current <= RESIZE_STEP_BYTES
            ||| self.boot <= n < self.current && self.current - n <= RESIZE_STEP_BYTES
        }
    }

    /// The monitor looks for the pressure signal.
    pub open spec fn restarted(self) -> (MemoryMonitor, MonitorAction) {
        (MemoryMonitor { phase: Phase::Signal, ..self }, MonitorAction::CheckSignal)
    }

    /// The monitor asks for a resize because of the guest's figures.
    pub open spec fn resizing(self, n: u64) -> (MemoryMonitor, MonitorAction) {
        (MemoryMonitor { phase: Phase::PolledResize(n), ..self }, MonitorAction::Resize(n))
    }

    /// What the monitor makes of the guest's figures.
    pub open spec fn on_figures(self, total_kb: u64, available_kb: u64, now_ms: u64) -> (
        MemoryMonitor,
        MonitorAction,
    ) {
        let none = MemoryMonitor { reclaim_since: None, ..self };
        if total_kb == 0 {
            self.restarted()
        } else if scarce(total_kb, available_kb) && self.current < self.max {
            none.resizing(grown(self.current as int, self.max as int) as u64)
        } else if plentiful(total_kb, available_kb) && self.current > self.boot {
            match self.reclaim_since {
                None => MemoryMonitor { reclaim_since: Some(now_ms), ..self }.restarted(),
                Some(since) => if now_ms - since >= RECLAIM_COOLDOWN_MS {
                    self.resizing(shrunk(self.current as int, self.boot as int) as u64)
                } else {
                    self.restarted()
                },
            }
        } else {
            none.restarted()
        }
    }

    /// The state and the action after an event. An event that the monitor is not waiting for
    /// starts the cycle anew.
    pub open spec fn after(self, event: MonitorEvent) -> (MemoryMonitor, MonitorAction) {
        match (self.phase, event) {
            (Phase::Stopped, _) => (self, MonitorAction::Stop),
            (_, MonitorEvent::Shutdown) => (
                MemoryMonitor { phase: Phase::Stopped, ..self },
                MonitorAction::Stop,
            ),
            (Phase::Signal, MonitorEvent::Signal(pressure)) => if pressure && self.current
                < self.max {
                let n = grown(self.current as int, self.max as int) as u64;
                (MemoryMonitor { phase: Phase::PressureResize(n), ..self }, MonitorAction::Resize(n))
            } else {
                (MemoryMonitor { phase: Phase::Poll, ..self }, MonitorAction::Wait(POLL_INTERVAL_MS))
            },
            (Phase::Poll, MonitorEvent::TimeUp) => (
                MemoryMonitor { phase: Phase::Figures, ..self },
                MonitorAction::QueryGuest,
            ),
            (Phase::Figures, MonitorEvent::Figures { total_kb, available_kb, now_ms }) =>
                self.on_figures(total_kb, available_kb, now_ms),
            (Phase::PressureResize(n), MonitorEvent::Resized(ok)) => {
                let next = if ok {
                    MemoryMonitor { current: n, reclaim_since: None, ..self }
                } else {
                    self
                };
                (MemoryMonitor { phase: Phase::Pause, ..next }, MonitorAction::Pause(PRESSURE_PAUSE_MS))
            },
            (Phase::PolledResize(n), MonitorEvent::Resized(ok)) => if ok {
                MemoryMonitor { current: n, reclaim_since: None, ..self }.restarted()
            } else {
                self.restarted()
            },
            _ => self.restarted(),
        }
    }

    /// A monitor for a VM that has its boot memory. Its first action is to look for the signal.
    pub fn new(config: &MemoryMonitorConfig) -> (res: Self)
        ensures
            res == (MemoryMonitor {
                boot: config.boot_memory_bytes,
                max: config.max_memory_bytes,
                current: config.boot_memory_bytes,
                reclaim_since: None,
                phase: Phase::Signal,
            }),
            res.wf(),
    {
        MemoryMonitor {
            boot: config.boot_memory_bytes,
            max: config.max_memory_bytes,
            current: config.boot_memory_bytes,
            reclaim_since: None,
            phase: Phase::Signal,
        }
    }

    fn restart(&mut self) -> (res: MonitorAction)
        ensures
            (*final(self), res) == old(self).restarted(),
    {
        self.phase = Phase::Signal;
        MonitorAction::CheckSignal
    }

    fn read_figures(&mut self, total_kb: u64, available_kb: u64, now_ms: u64) -> (res:
        MonitorAction)
        requires
            old(self).wf(),
            old(self).phase == Phase::Figures,
        ensures
            final(self).wf(),
            (*final(self), res) == old(self).on_figures(total_kb, available_kb, now_ms),
    {
        if total_kb == 0 {
            return self.restart();
        }
        let available: u128 = available_kb as u128;
        let total: u128 = total_kb as u128;
        if available * 5 < total && self.current < self.max {
            let n: u64 = if self.max - self.current < RESIZE_STEP_BYTES {
                self.max
            } else {
                self.current + RESIZE_STEP_BYTES
            };
            self.reclaim_since = None;
            self.phase = Phase::PolledResize(n);
            return MonitorAction::Resize(n);
        }
        if available * 2 > total && self.current > self.boot {
            match self.reclaim_since {
                None => {
                    self.reclaim_since = Some(now_ms);
                },
                Some(since) => {
                    if now_ms >= since && now_ms - since >= RECLAIM_COOLDOWN_MS {
                        let n: u64 = if self.current - self.boot < RESIZE_STEP_BYTES {
                            self.boot
                        } else {
                            self.current - RESIZE_STEP_BYTES
                        };
                        self.phase = Phase::PolledResize(n);
                        return MonitorAction::Resize(n);
                    }
                },
            }
        } else {
            self.reclaim_since = None;
        }
        self.restart()
    }

    /// Takes an event in and says what to do next.
    pub fn step(&mut self, event: MonitorEvent) -> (res: MonitorAction)
        requires
            old(self).wf(),
        ensures
            final(self).wf(),
            (*final(self), res) == old(self).after(event),
    {
        match (self.phase, event) {
            (Phase::Stopped, _) => MonitorAction::Stop,
            (_, MonitorEvent::Shutdown) => {
                self.phase = Phase::Stopped;
                MonitorAction::Stop
            },
            (Phase::Signal, MonitorEvent::Signal(pressure)) => {
                if pressure && self.current < self.max {
                    let n: u64 = if self.max - self.current < RESIZE_STEP_BYTES {
                        self.max
                    } else {
                        self.current + RESIZE_STEP_BYTES
                    };
                    self.phase = Phase::PressureResize(n);
                    MonitorAction::Resize(n)
                } else {
                    self.phase = Phase::Poll;
                    MonitorAction::Wait(POLL_INTERVAL_MS)
                }
            },
            (Phase::Poll, MonitorEvent::TimeUp) => {
                self.phase = Phase::Figures;
                MonitorAction::QueryGuest
            },
            (Phase::Figures, MonitorEvent::Figures { total_kb, available_kb, now_ms }) =>
                self.read_figures(total_kb, available_kb, now_ms),
            (Phase::PressureResize(n), MonitorEvent::Resized(ok)) => {
                if ok {
                    self.current = n;
                    self.reclaim_since = None;
                }
                self.phase = Phase::Pause;
                MonitorAction::Pause(PRESSURE_PAUSE_MS)
            },
            (Phase::PolledResize(n), MonitorEvent::Resized(ok)) => {
                if ok {
                    self.current = n;
                    self.reclaim_since = None;
                }
                self.restart()
            },
            _ => self.restart(),
        }
    }
}

/// The body of a request that resizes the VM's memory.
pub open spec fn resize_body_spec(bytes: nat) -> Seq<char> {
    "{\"desired_ram\":"@ + text::dec(bytes) + "}"@
}

/// The body of a request that resizes the VM's memory to `bytes`.
pub fn resize_body(bytes: u64) -> (res: String)
    ensures
        res@ == resize_body_spec(bytes as nat),
{
    let n: String = text::decimal(bytes);
    text::join3("{\"desired_ram\":", n.as_str(), "}")
}

/// The state after a sequence of events.
pub open spec fn run(m: MemoryMonitor, events: Seq<MonitorEvent>) -> MemoryMonitor
    decreases events.len(),
{
    if events.len() == 0 {
        m
    } else {
        run(m, events.drop_last()).after(events.last()).0
    }
}

/// Whatever happens, the memory stays between the boot memory and the maximum.
pub proof fn law_memory_within_bounds(m: MemoryMonitor, events: Seq<MonitorEvent>)
    requires
        m.wf(),
    ensures
        run(m, events).wf(),
        run(m, events).boot == m.boot,
        run(m, events).max == m.max,
        m.boot <= run(m, events).current,
        m.boot <= m.max ==> run(m, events).current <= m.max,
    decreases events.len(),
{
    if events.len() > 0 {
        law_memory_within_bounds(m, events.drop_last());
    }
}

/// Every resize asked for moves by at most one step and stays within floor and ceiling.
pub proof fn law_resizes_within_bounds(m: MemoryMonitor, event: MonitorEvent, n: u64)
    requires
        m.wf(),
        m.after(event).1 == MonitorAction::Resize(n),
    ensures
        m.boot <= n <= m.max || m.max < m.boot,
        n != m.current,
        n - m.current <= RESIZE_STEP_BYTES,
        m.current - n <= RESIZE_STEP_BYTES,
{
}

/// Memory only shrinks after available memory has been plentiful for the whole cooldown.
pub proof fn law_shrinks_only_after_cooldown(m: MemoryMonitor, event: MonitorEvent, n: u64)
    requires
        m.wf(),
        m.after(event).1 == MonitorAction::Resize(n),
        n < m.current,
    ensures
        event matches MonitorEvent::Figures { total_kb, available_kb, now_ms } && plentiful(
            total_kb,
            available_kb,
        ) && (m.reclaim_since matches Some(since) && now_ms - since >= RECLAIM_COOLDOWN_MS),
{
}

/// The events up to the last one start the cooldown at index `i`: the figures there were
/// plentiful, and so were all figures since.
pub open spec fn plentiful_from(events: Seq<MonitorEvent>, i: int, since: u64) -> bool {
    &&& 0 <= i < events.len()
    &&& events[i] matches MonitorEvent::Figures { now_ms, .. } && now_ms == since
    &&& forall|j: int|
        i <= j < events.len() ==> (#[trigger] events[j] matches MonitorEvent::Figures {
            total_kb,
            available_kb,
            ..
        } ==> total_kb == 0 || plentiful(total_kb, available_kb))
}

/// Whether every event came while the monitor was waiting for it.
pub open spec fn expected(m: MemoryMonitor, events: Seq<MonitorEvent>) -> bool
    decreases events.len(),
{
    events.len() == 0 || {
        &&& expected(m, events.drop_last())
        &&& events.last() is Figures ==> run(m, events.drop_last()).phase == Phase::Figures
    }
}

/// While a cooldown runs, no figures have been less than plentiful since it started.
pub proof fn law_cooldown_means_plentiful(m: MemoryMonitor, events: Seq<MonitorEvent>)
    requires
        m.wf(),
        m.reclaim_since is None,
        expected(m, events),
    ensures
        run(m, events).reclaim_since matches Some(since) ==> exists|i: int|
            plentiful_from(events, i, since),
    decreases events.len(),
{
    if events.len() > 0 {
        let before = events.drop_last();
        law_cooldown_means_plentiful(m, before);
        law_memory_within_bounds(m, before);
        let s = run(m, before);
        let t = run(m, events);
        if let Some(since) = t.reclaim_since {
            if s.reclaim_since == Some(since) {
                let i = choose|i: int| plentiful_from(before, i, since);
                assert(plentiful_from(events, i, since)) by {
                    assert forall|j: int| i <= j < events.len() implies (
                    #[trigger] events[j] matches MonitorEvent::Figures {
                        total_kb,
                        available_kb,
                        ..
                    } ==> total_kb == 0 || plentiful(total_kb, available_kb)) by {
                        if j < before.len() {
                            assert(before[j] == events[j]);
                        }
                    }
                    assert(events[i] == before[i]);
                }
            } else {
                assert(plentiful_from(events, events.len() - 1, since));
            }
        }
    }
}

/// Memory that is scarce grows: where the guest has less than a fifth of its memory available and
/// the VM less than its maximum, the next action is a resize to a larger size, which is 128 MiB
/// more, or the maximum where that is nearer.
pub proof fn law_scarce_memory_grows(
    m: MemoryMonitor,
    total_kb: u64,
    available_kb: u64,
    now_ms: u64,
)
    requires
        m.phase == Phase::Figures,
        total_kb != 0,
        available_kb * 5 < total_kb,
        m.current < m.max,
    ensures
        m.after(MonitorEvent::Figures { total_kb, available_kb, now_ms }).1 matches MonitorAction::Resize(
            n,
        ) && m.current < n <= m.max && (n == m.current + 128 * 1024 * 1024 || (n == m.max && n
            < m.current + 128 * 1024 * 1024)),
        m.after(MonitorEvent::Figures { total_kb, available_kb, now_ms }).0.reclaim_since is None,
{
}

/// A pressure signal makes memory grow by the same step, up to the maximum; without one, or at the
/// maximum, the monitor waits five seconds and then asks the guest.
pub proof fn law_pressure_grows(m: MemoryMonitor, pressure: bool)
    requires
        m.phase == Phase::Signal,
    ensures
        pressure && m.current < m.max ==> (m.after(
            MonitorEvent::Signal(pressure),
        ).1 matches MonitorAction::Resize(n) && m.current < n <= m.max && (n == m.current + 128
            * 1024 * 1024 || (n == m.max && n < m.current + 128 * 1024 * 1024))),
        !pressure || m.current >= m.max ==> m.after(MonitorEvent::Signal(pressure)).1
            == MonitorAction::Wait(5000) && m.after(MonitorEvent::Signal(pressure)).0.after(
            MonitorEvent::TimeUp,
        ).1 == MonitorAction::QueryGuest,
{
}

/// Memory that has been plentiful for a minute shrinks: the next action is a resize to a smaller
/// size, which is 128 MiB less, or the boot memory where that is nearer.
pub proof fn law_plentiful_memory_shrinks(
    m: MemoryMonitor,
    total_kb: u64,
    available_kb: u64,
    now_ms: u64,
    since: u64,
)
    requires
        m.phase == Phase::Figures,
        total_kb != 0,
        available_kb * 2 > total_kb,
        m.boot < m.current,
        m.reclaim_since == Some(since),
    ensures
        now_ms - since >= 60000 ==> (m.after(
            MonitorEvent::Figures { total_kb, available_kb, now_ms },
        ).1 matches MonitorAction::Resize(n) && m.boot <= n < m.current && (n == m.current - 128
            * 1024 * 1024 || (n == m.boot && n > m.current - 128 * 1024 * 1024))),
        now_ms - since < 60000 ==> m.after(
            MonitorEvent::Figures { total_kb, available_kb, now_ms },
        ).1 == MonitorAction::CheckSignal && m.after(
            MonitorEvent::Figures { total_kb, available_kb, now_ms },
        ).0.reclaim_since == Some(since),
{
}

/// The minute starts with the first figures that are plentiful, and ends with figures that are not,
/// or once there is nothing to give back.
pub proof fn law_cooldown_starts_and_ends(
    m: MemoryMonitor,
    total_kb: u64,
    available_kb: u64,
    now_ms: u64,
)
    requires
        m.phase == Phase::Figures,
        total_kb != 0,
    ensures
        available_kb * 2 > total_kb && m.boot < m.current && m.reclaim_since is None ==> m.after(
            MonitorEvent::Figures { total_kb, available_kb, now_ms },
        ) == (
            MemoryMonitor { reclaim_since: Some(now_ms), phase: Phase::Signal, ..m },
            MonitorAction::CheckSignal,
        ),
        available_kb * 2 <= total_kb || m.boot >= m.current ==> m.after(
            MonitorEvent::Figures { total_kb, available_kb, now_ms },
        ).0.reclaim_since is None,
        available_kb * 5 >= total_kb && available_kb * 2 <= total_kb ==> m.after(
            MonitorEvent::Figures { total_kb, available_kb, now_ms },
        ).1 == MonitorAction::CheckSignal,
{
}

/// The memory changes by a resize that succeeded, to the size that was asked for, and by nothing
/// else. A resize also ends the minute.
pub proof fn law_memory_changes_by_resizes(m: MemoryMonitor, event: MonitorEvent, n: u64)
    ensures
        m.phase == Phase::PressureResize(n) || m.phase == Phase::PolledResize(n) ==> m.after(
            MonitorEvent::Resized(true),
        ).0.current == n && m.after(MonitorEvent::Resized(true)).0.reclaim_since is None && m.after(
            MonitorEvent::Resized(false),
        ).0.current == m.current && m.after(MonitorEvent::Resized(false)).0.reclaim_since
            == m.reclaim_since,
        event != MonitorEvent::Resized(true) ==> m.after(event).0.current == m.current,
        !(m.phase is PressureResize) && !(m.phase is PolledResize) ==> m.after(event).0.current
            == m.current,
        m.after(event).1 == MonitorAction::Resize(n) ==> (m.after(event).0.phase
            == Phase::PressureResize(n) || m.after(event).0.phase == Phase::PolledResize(n)),
{
}

/// The monitor stops when it is told to, and only then, and stays stopped. A guest that does not
/// answer changes nothing.
pub proof fn law_monitor_stops(m: MemoryMonitor, event: MonitorEvent)
    ensures
        m.after(event).1 == MonitorAction::Stop <==> (event == MonitorEvent::Shutdown || m.phase
            == Phase::Stopped),
        m.after(event).1 == MonitorAction::Stop ==> m.after(event).0.phase == Phase::Stopped,
        m.phase == Phase::Figures ==> m.after(MonitorEvent::NoFigures) == (
            MemoryMonitor { phase: Phase::Signal, ..m },
            MonitorAction::CheckSignal,
        ),
        m.phase is PressureResize && event is Resized ==> m.after(event).0.phase == Phase::Pause
            && m.after(event).1 == MonitorAction::Pause(1000) && m.after(event).0.after(MonitorEvent::TimeUp).1
            == MonitorAction::CheckSignal,
        m.phase is PolledResize && event is Resized ==> m.after(event).1
            == MonitorAction::CheckSignal,
{
}

/// The request that resizes a VM's memory says how many bytes it is to have, under the name that the
/// hypervisor knows.
pub proof fn law_resize_body(bytes: nat)
    ensures
        resize_body_spec(bytes) == seq!['{'] + seq!['"'] + "desired_ram"@ + seq!['"'] + seq![':']
            + text::dec(bytes) + seq!['}'],
{
    reveal_strlit("{\"desired_ram\":");
    reveal_strlit("desired_ram");
    reveal_strlit("}");
    assert("{\"desired_ram\":"@ =~= seq!['{'] + seq!['"'] + "desired_ram"@ + seq!['"'] + seq![':']);
    assert("}"@ =~= seq!['}']);
}

} // verus!
