//! Connecting a VM to its pod's network: a TAP device in the pod's network namespace, and
//! redirects between it and the pod's interface.
//!
//! [`TapSetup`] drives the `ip` and `tc` commands. It asks for one thing at a time and is told
//! what came of it.

use crate::json;
use crate::json::{Json, JsonView};
use crate::text;
use vstd::prelude::*;

verus! {

/// The network of a VM.
#[derive(Debug)]
pub struct TapInfo {
    pub tap_name: String,
    pub mac: String,
    pub ip_cidr: String,
    pub gateway: String,
}

/// The name of a VM's TAP device.
pub open spec fn tap_name_spec(vm_id: Seq<char>) -> Seq<char> {
    "tap_"@ + text::head_of(vm_id, 8)
}

/// The name of a VM's TAP device: the first eight bytes of the VM's name, behind a prefix.
pub fn tap_name(vm_id: &str) -> (res: String)
    requires
        text::head_is_whole(vm_id@, 8),
    ensures
        res@ == tap_name_spec(vm_id@),
{
    text::join2("tap_", text::head(vm_id, 8))
}

/// The arguments with which `nsenter` runs a command in a network namespace.
pub open spec fn in_netns(netns: Seq<char>, cmd: Seq<Seq<char>>) -> Seq<Seq<char>> {
    seq!["--net="@ + netns, "--"@] + cmd
}

/// The arguments with which `nsenter` runs a command in a network namespace.
pub fn netns_command(netns: &str, cmd: &[&str]) -> (res: Vec<String>)
    ensures
        text::strings(res@) == in_netns(netns@, text::strs(cmd@)),
{
    let mut out: Vec<String> = Vec::new();
    out.push(text::join2("--net=", netns));
    out.push("--".to_owned());
    let mut i: usize = 0;
    assert(text::strings(out@) =~= in_netns(netns@, text::strs(cmd@).take(0)));
    while i < cmd.len()
        invariant
            i <= cmd@.len(),
            text::strings(out@) == in_netns(netns@, text::strs(cmd@).take(i as int)),
        decreases cmd@.len() - i,
    {
        let ghost was = out@;
        out.push(cmd[i].to_owned());
        proof {
            let c = text::strs(cmd@);
            assert(text::strings(out@) =~= text::strings(was).push(c[i as int]));
            assert(c.take(i + 1) =~= c.take(i as int).push(c[i as int]));
            assert(in_netns(netns@, c.take(i as int)).push(c[i as int]) =~= in_netns(
                netns@,
                c.take(i + 1),
            ));
        }
        i += 1;
    }
    assert(text::strs(cmd@).take(cmd@.len() as int) =~= text::strs(cmd@));
    out
}

/// The command that deletes a link.
pub open spec fn link_del(dev: Seq<char>) -> Seq<Seq<char>> {
    seq!["ip"@, "link"@, "del"@, dev]
}

/// The command that creates a TAP device.
pub open spec fn tuntap_add(dev: Seq<char>) -> Seq<Seq<char>> {
    seq!["ip"@, "tuntap"@, "add"@, dev, "mode"@, "tap"@]
}

/// The command that brings a link up.
pub open spec fn link_up(dev: Seq<char>) -> Seq<Seq<char>> {
    seq!["ip"@, "link"@, "set"@, dev, "up"@]
}

/// The command that lists addresses as JSON.
pub open spec fn addr_show() -> Seq<Seq<char>> {
    seq!["ip"@, "-j"@, "addr"@, "show"@]
}

/// The command that lists default routes as JSON.
pub open spec fn route_show() -> Seq<Seq<char>> {
    seq!["ip"@, "-j"@, "route"@, "show"@, "default"@]
}

/// The command that adds an ingress queueing discipline.
pub open spec fn qdisc_add(dev: Seq<char>) -> Seq<Seq<char>> {
    seq!["tc"@, "qdisc"@, "add"@, "dev"@, dev, "ingress"@]
}

/// The command that removes an ingress queueing discipline.
pub open spec fn qdisc_del(dev: Seq<char>) -> Seq<Seq<char>> {
    seq!["tc"@, "qdisc"@, "del"@, "dev"@, dev, "ingress"@]
}

/// The command that sends all that comes in on one device out of another.
pub open spec fn redirect(from: Seq<char>, to: Seq<char>) -> Seq<Seq<char>> {
    seq![
        "tc"@,
        "filter"@,
        "add"@,
        "dev"@,
        from,
        "parent"@,
        "ffff:"@,
        "protocol"@,
        "all"@,
        "u32"@,
        "match"@,
        "u32"@,
        "0"@,
        "0"@,
        "action"@,
        "mirred"@,
        "egress"@,
        "redirect"@,
        "dev"@,
        to,
    ]
}

/// The command that removes all addresses from a device.
pub open spec fn addr_flush(dev: Seq<char>) -> Seq<Seq<char>> {
    seq!["ip"@, "addr"@, "flush"@, "dev"@, dev]
}

fn qdisc_add_command(netns: &str, dev: &str) -> (res: Vec<String>)
    ensures
        text::strings(res@) == in_netns(netns@, qdisc_add(dev@)),
{
    let a: [&str; 6] = ["tc", "qdisc", "add", "dev", dev, "ingress"];
    assert(text::strs(a@) =~= qdisc_add(dev@));
    netns_command(netns, &a)
}

fn redirect_command(netns: &str, from: &str, to: &str) -> (res: Vec<String>)
    ensures
        text::strings(res@) == in_netns(netns@, redirect(from@, to@)),
{
    let a: [&str; 20] = [
        "tc",
        "filter",
        "add",
        "dev",
        from,
        "parent",
        "ffff:",
        "protocol",
        "all",
        "u32",
        "match",
        "u32",
        "0",
        "0",
        "action",
        "mirred",
        "egress",
        "redirect",
        "dev",
        to,
    ];
    assert(text::strs(a@) =~= redirect(from@, to@));
    netns_command(netns, &a)
}

/// The contents of a list of argument lists.
pub open spec fn commands(v: Seq<Vec<String>>) -> Seq<Seq<Seq<char>>> {
    Seq::new(v.len(), |i: int| text::strings(v[i]@))
}

/// The `nsenter` argument lists that undo a TAP setup, to be run in order, whatever each gives:
/// the redirects of TAP device and pod interface go, then the device.
pub fn cleanup_tap_in_netns(netns: &str, tap: &str) -> (res: Vec<Vec<String>>)
    ensures
        commands(res@) == seq![
            in_netns(netns@, qdisc_del(tap@)),
            in_netns(netns@, qdisc_del("eth0"@)),
            in_netns(netns@, link_del(tap@)),
        ],
{
    let a: [&str; 6] = ["tc", "qdisc", "del", "dev", tap, "ingress"];
    let b: [&str; 6] = ["tc", "qdisc", "del", "dev", "eth0", "ingress"];
    let c: [&str; 4] = ["ip", "link", "del", tap];
    assert(text::strs(a@) =~= qdisc_del(tap@));
    assert(text::strs(b@) =~= qdisc_del("eth0"@));
    assert(text::strs(c@) =~= link_del(tap@));
    let mut out: Vec<Vec<String>> = Vec::new();
    out.push(netns_command(netns, &a));
    out.push(netns_command(netns, &b));
    out.push(netns_command(netns, &c));
    assert(commands(out@) =~= seq![
        in_netns(netns@, qdisc_del(tap@)),
        in_netns(netns@, qdisc_del("eth0"@)),
        in_netns(netns@, link_del(tap@)),
    ]);
    out
}

/// The text under `key`, empty where there is none.
pub open spec fn text_or_empty(j: JsonView, key: Seq<char>) -> Seq<char> {
    match json::opt_text(j.field(key)) {
        Some(s) => s,
        None => Seq::empty(),
    }
}

/// The text under `key`, empty where there is none.
pub fn text_at<'a>(j: &'a Json, key: &str) -> (res: &'a str)
    ensures
        res@ == text_or_empty(j@, key@),
{
    proof {
        reveal_strlit("");
    }
    match j.get(key) {
        Some(v) => match v.as_str() {
            Some(s) => s,
            None => {
                assert(""@ =~= Seq::<char>::empty());
                ""
            },
        },
        None => {
            assert(""@ =~= Seq::<char>::empty());
            ""
        },
    }
}

/// The prefix length of an address entry, 24 where it has none.
pub open spec fn prefix_len(addr: JsonView) -> nat {
    match addr.field("prefixlen"@) {
        Some(p) => match p.as_unsigned() {
            Some(n) => n as nat,
            None => 24,
        },
        None => 24,
    }
}

/// The address with prefix length of the first IPv4 entry.
pub open spec fn first_inet(a: Seq<JsonView>) -> Option<Seq<char>>
    decreases a.len(),
{
    if a.len() == 0 {
        None
    } else if json::opt_text(a[0].field("family"@)) == Some("inet"@) {
        Some(text_or_empty(a[0], "local"@) + "/"@ + text::dec(prefix_len(a[0])))
    } else {
        first_inet(a.skip(1))
    }
}

/// The address of an interface that can be the pod's: not the loopback, the TAP device or one
/// without a name.
pub open spec fn pod_address(iface: JsonView, tap: Seq<char>) -> Option<Seq<char>> {
    let name = text_or_empty(iface, "ifname"@);
    if name == "lo"@ || name == tap || name.len() == 0 {
        None
    } else {
        match iface.field("addr_info"@) {
            Some(JsonView::Array(a)) => first_inet(a),
            _ => None,
        }
    }
}

/// What is known of the pod's interface.
#[derive(Debug)]
pub struct Veth {
    pub name: String,
    pub ip_cidr: String,
    pub mac: String,
}

/// What is known of the pod's interface.
pub struct VethView {
    pub name: Seq<char>,
    pub ip_cidr: Seq<char>,
    pub mac: Seq<char>,
}

impl View for Veth {
    type V = VethView;

    open spec fn view(&self) -> VethView {
        VethView { name: self.name@, ip_cidr: self.ip_cidr@, mac: self.mac@ }
    }
}

/// The first interface that can be the pod's and has an address.
pub open spec fn first_veth(ifaces: Seq<JsonView>, tap: Seq<char>) -> Option<VethView>
    decreases ifaces.len(),
{
    if ifaces.len() == 0 {
        None
    } else {
        match pod_address(ifaces[0], tap) {
            Some(cidr) => Some(
                VethView {
                    name: text_or_empty(ifaces[0], "ifname"@),
                    ip_cidr: cidr,
                    mac: text_or_empty(ifaces[0], "address"@),
                },
            ),
            None => first_veth(ifaces.skip(1), tap),
        }
    }
}

/// The pod's interface in a list of addresses.
pub open spec fn veth_in(addrs: JsonView, tap: Seq<char>) -> Option<VethView> {
    match addrs {
        JsonView::Array(a) => first_veth(a, tap),
        _ => None,
    }
}

fn find_inet(v: &Vec<Json>) -> (res: Option<String>)
    ensures
        text::opt_string(res) == first_inet(json::elements(v@)),
{
    broadcast use json::lemma_elements;

    let ghost e = json::elements(v@);
    let mut i: usize = 0;
    assert(e.skip(0) =~= e);
    while i < v.len()
        invariant
            i <= v@.len(),
            e == json::elements(v@),
            e.len() == v@.len(),
            forall|k: int| 0 <= k < v@.len() ==> #[trigger] e[k] == v@[k]@,
            first_inet(e) == first_inet(e.skip(i as int)),
        decreases v@.len() - i,
    {
        assert(e.skip(i as int)[0] == v@[i as int]@);
        assert(e.skip(i as int).skip(1) =~= e.skip(i + 1));
        let inet: bool = match v[i].get("family") {
            Some(f) => match f.as_str() {
                Some(s) => text::same(s, "inet"),
                None => false,
            },
            None => false,
        };
        if inet {
            let n: u64 = match v[i].get("prefixlen") {
                Some(p) => match p.as_u64() {
                    Some(n) => n,
                    None => 24,
                },
                None => 24,
            };
            let digits: String = text::decimal(n);
            return Some(text::join3(text_at(&v[i], "local"), "/", digits.as_str()));
        }
        i += 1;
    }
    None
}

/// Finds the pod's interface in the output of `ip -j addr show`.
pub fn find_veth_in(addrs: &Json, tap: &str) -> (res: Option<Veth>)
    ensures
        match res {
            Some(v) => veth_in(addrs@, tap@) == Some(v@),
            None => veth_in(addrs@, tap@) is None,
        },
{
    broadcast use json::lemma_elements;

    match addrs {
        Json::Array(v) => {
            let ghost e = json::elements(v@);
            let mut i: usize = 0;
            assert(e.skip(0) =~= e);
            while i < v.len()
                invariant
                    i <= v@.len(),
                    e == json::elements(v@),
                    addrs@ == JsonView::Array(e),
                    e.len() == v@.len(),
                    forall|k: int| 0 <= k < v@.len() ==> #[trigger] e[k] == v@[k]@,
                    first_veth(e, tap@) == first_veth(e.skip(i as int), tap@),
                decreases v@.len() - i,
            {
                assert(e.skip(i as int)[0] == v@[i as int]@);
                assert(e.skip(i as int).skip(1) =~= e.skip(i + 1));
                let name: &str = text_at(&v[i], "ifname");
                if !text::same(name, "lo") && !text::same(name, tap) && !name.is_empty() {
                    if let Some(Json::Array(infos)) = v[i].get("addr_info") {
                        if let Some(cidr) = find_inet(infos) {
                            let mac: &str = text_at(&v[i], "address");
                            return Some(
                                Veth {
                                    name: name.to_owned(),
                                    ip_cidr: cidr,
                                    mac: mac.to_owned(),
                                },
                            );
                        }
                    }
                }
                i += 1;
            }
            None
        },
        _ => None,
    }
}

/// The gateway of the first of a list of routes.
pub open spec fn gateway_in(routes: JsonView) -> Option<Seq<char>> {
    match routes {
        JsonView::Array(a) => if a.len() > 0 {
            json::opt_text(a[0].field("gateway"@))
        } else {
            None
        },
        _ => None,
    }
}

/// Finds the gateway in the output of `ip -j route show default`.
pub fn find_gateway_in(routes: &Json) -> (res: Option<String>)
    ensures
        text::opt_string(res) == gateway_in(routes@),
{
    broadcast use json::lemma_elements;

    match routes {
        Json::Array(v) => {
            if v.len() == 0 {
                return None;
            }
            assert(json::elements(v@)[0] == v@[0]@);
            match v[0].get("gateway") {
                Some(g) => match g.as_str() {
                    Some(s) => Some(s.to_owned()),
                    None => None,
                },
                None => None,
            }
        },
        _ => None,
    }
}

/// How often the namespace is looked for.
pub const NETNS_ATTEMPTS: u32 = 20;

/// How often addresses and routes are asked for.
pub const QUERY_ATTEMPTS: u32 = 10;

/// The pause between two attempts, in milliseconds.
pub const ATTEMPT_PAUSE_MS: u64 = 100;

/// Why a setup failed.
#[derive(Debug, Clone, Copy, PartialEq, Eq, Structural)]
pub enum TapError {
    /// The network namespace did not appear.
    NetnsMissing,
    /// A command could not be started.
    Command,
    /// The TAP device could not be created.
    Create,
    /// The TAP device could not be brought up.
    Up,
    /// No interface with an address appeared.
    NoVeth,
    /// No default route appeared.
    NoGateway,
}

/// How far a setup has come.
#[derive(Debug, Clone, Copy, PartialEq, Eq, Structural)]
pub enum TapPhase {
    /// The namespace is being looked for; so many attempts came before.
    Netns(u32),
    NetnsPause(u32),
    /// A device that an earlier attempt left behind is being deleted.
    DeleteStale,
    Create,
    Up,
    /// The pod's interface is being looked for.
    Addrs(u32),
    AddrsPause(u32),
    /// The default route is being looked for.
    Routes(u32),
    RoutesPause(u32),
    /// One of the four redirecting commands is being run.
    Redirect(u32),
    /// The pod's address is being taken off its interface, so that packets reach the VM.
    Flush,
    Finished,
    Failed(TapError),
}

/// What to do next.
#[derive(Debug)]
pub enum TapAction {
    /// See whether the network namespace exists.
    CheckNetns,
    /// Wait so many milliseconds.
    Sleep(u64),
    /// Run `nsenter` with these arguments, and see whether it succeeds.
    Run(Vec<String>),
    /// Run `nsenter` with these arguments, and take its output.
    Capture(Vec<String>),
    /// Nothing: the network is set up.
    Done(TapInfo),
    /// Nothing: the setup failed.
    Fail(TapError),
}

/// What came of an action.
#[derive(Debug)]
pub enum TapEvent {
    /// Whether the namespace exists.
    Netns(bool),
    Slept,
    /// Whether the command succeeded; nothing where it could not be started.
    Ran(Option<bool>),
    /// The command's output; nothing where it could not be started.
    Captured(Option<Vec<u8>>),
}

/// What to do next.
pub enum TapActionView {
    CheckNetns,
    Sleep(u64),
    Run(Seq<Seq<char>>),
    Capture(Seq<Seq<char>>),
    Done { tap_name: Seq<char>, mac: Seq<char>, ip_cidr: Seq<char>, gateway: Seq<char> },
    Fail(TapError),
}

impl View for TapAction {
    type V = TapActionView;

    open spec fn view(&self) -> TapActionView {
        match *self {
            TapAction::CheckNetns => TapActionView::CheckNetns,
            TapAction::Sleep(n) => TapActionView::Sleep(n),
            TapAction::Run(v) => TapActionView::Run(text::strings(v@)),
            TapAction::Capture(v) => TapActionView::Capture(text::strings(v@)),
            TapAction::Done(i) => TapActionView::Done {
                tap_name: i.tap_name@,
                mac: i.mac@,
                ip_cidr: i.ip_cidr@,
                gateway: i.gateway@,
            },
            TapAction::Fail(e) => TapActionView::Fail(e),
        }
    }
}

/// A TAP setup under way.
#[derive(Debug)]
pub struct TapSetup {
    pub netns: String,
    pub tap: String,
    pub veth: Veth,
    pub gateway: String,
    pub phase: TapPhase,
}

/// The state of a TAP setup.
pub struct TapSetupView {
    pub netns: Seq<char>,
    pub tap: Seq<char>,
    pub veth: VethView,
    pub gateway: Seq<char>,
    pub phase: TapPhase,
}

impl View for TapSetup {
    type V = TapSetupView;

    open spec fn view(&self) -> TapSetupView {
        TapSetupView {
            netns: self.netns@,
            tap: self.tap@,
            veth: self.veth@,
            gateway: self.gateway@,
            phase: self.phase,
        }
    }
}

impl TapSetupView {
    /// What the setup asks for in its phase.
    pub open spec fn action(self) -> TapActionView {
        match self.phase {
            TapPhase::Netns(_) => TapActionView::CheckNetns,
            TapPhase::NetnsPause(_) => TapActionView::Sleep(ATTEMPT_PAUSE_MS),
            TapPhase::DeleteStale => TapActionView::Run(in_netns(self.netns, link_del(self.tap))),
            TapPhase::Create => TapActionView::Run(in_netns(self.netns, tuntap_add(self.tap))),
            TapPhase::Up => TapActionView::Run(in_netns(self.netns, link_up(self.tap))),
            TapPhase::Addrs(_) => TapActionView::Capture(in_netns(self.netns, addr_show())),
            TapPhase::AddrsPause(_) => TapActionView::Sleep(ATTEMPT_PAUSE_MS),
            TapPhase::Routes(_) => TapActionView::Capture(in_netns(self.netns, route_show())),
            TapPhase::RoutesPause(_) => TapActionView::Sleep(ATTEMPT_PAUSE_MS),
            TapPhase::Redirect(i) => TapActionView::Run(
                in_netns(
                    self.netns,
                    if i == 0 {
                        qdisc_add(self.veth.name)
                    } else if i == 1 {
                        redirect(self.veth.name, self.tap)
                    } else if i == 2 {
                        qdisc_add(self.tap)
                    } else {
                        redirect(self.tap, self.veth.name)
                    },
                ),
            ),
            TapPhase::Flush => TapActionView::Run(in_netns(self.netns, addr_flush(self.veth.name))),
            TapPhase::Finished => TapActionView::Done {
                tap_name: self.tap,
                mac: self.veth.mac,
                ip_cidr: self.veth.ip_cidr,
                gateway: self.gateway,
            },
            TapPhase::Failed(e) => TapActionView::Fail(e),
        }
    }

    pub open spec fn to(self, phase: TapPhase) -> TapSetupView {
        TapSetupView { phase, ..self }
    }

    /// The state after the pod's interface was looked for.
    pub open spec fn with_veth(self, found: Option<VethView>) -> TapSetupView {
        match self.phase {
            TapPhase::Addrs(n) => match found {
                Some(veth) => TapSetupView { veth, phase: TapPhase::Routes(0), ..self },
                None => if n + 1 < QUERY_ATTEMPTS {
                    self.to(TapPhase::AddrsPause(n))
                } else {
                    self.to(TapPhase::Failed(TapError::NoVeth))
                },
            },
            _ => self,
        }
    }

    /// The state after the default route was looked for.
    pub open spec fn with_gateway(self, found: Option<Seq<char>>) -> TapSetupView {
        match self.phase {
            TapPhase::Routes(n) => match found {
                Some(gateway) => TapSetupView {
                    gateway,
                    phase: if gateway.len() == 0 {
                        TapPhase::Failed(TapError::NoGateway)
                    } else {
                        TapPhase::Redirect(0)
                    },
                    ..self
                },
                None => if n + 1 < QUERY_ATTEMPTS {
                    self.to(TapPhase::RoutesPause(n))
                } else {
                    self.to(TapPhase::Failed(TapError::NoGateway))
                },
            },
            _ => self,
        }
    }

    /// The state after an event. Output that is not JSON counts as an empty list; an event that
    /// is not waited for changes nothing. The stale device may well be missing, and redirects
    /// and the flush may well fail: only a command that cannot be started ends the setup there.
    pub open spec fn after(self, event: TapEvent) -> TapSetupView {
        match (self.phase, event) {
            (TapPhase::Netns(n), TapEvent::Netns(there)) => if there {
                self.to(TapPhase::DeleteStale)
            } else if n + 1 < NETNS_ATTEMPTS {
                self.to(TapPhase::NetnsPause(n))
            } else {
                self.to(TapPhase::Failed(TapError::NetnsMissing))
            },
            (TapPhase::NetnsPause(n), TapEvent::Slept) => self.to(TapPhase::Netns((n + 1) as u32)),
            (TapPhase::DeleteStale, TapEvent::Ran(_)) => self.to(TapPhase::Create),
            (TapPhase::Create, TapEvent::Ran(r)) => self.to(
                match r {
                    Some(true) => TapPhase::Up,
                    Some(false) => TapPhase::Failed(TapError::Create),
                    None => TapPhase::Failed(TapError::Command),
                },
            ),
            (TapPhase::Up, TapEvent::Ran(r)) => self.to(
                match r {
                    Some(true) => TapPhase::Addrs(0),
                    Some(false) => TapPhase::Failed(TapError::Up),
                    None => TapPhase::Failed(TapError::Command),
                },
            ),
            (TapPhase::Addrs(_), TapEvent::Captured(out)) => match out {
                Some(b) => self.with_veth(
                    match json::parsed_bytes(b@) {
                        Some(doc) => veth_in(doc, self.tap),
                        None => None,
                    },
                ),
                None => self.to(TapPhase::Failed(TapError::Command)),
            },
            (TapPhase::AddrsPause(n), TapEvent::Slept) => self.to(TapPhase::Addrs((n + 1) as u32)),
            (TapPhase::Routes(_), TapEvent::Captured(out)) => match out {
                Some(b) => self.with_gateway(
                    match json::parsed_bytes(b@) {
                        Some(doc) => gateway_in(doc),
                        None => None,
                    },
                ),
                None => self.to(TapPhase::Failed(TapError::Command)),
            },
            (TapPhase::RoutesPause(n), TapEvent::Slept) => self.to(TapPhase::Routes((n + 1) as u32)),
            (TapPhase::Redirect(i), TapEvent::Ran(r)) => self.to(
                if r is None {
                    TapPhase::Failed(TapError::Command)
                } else if i < 3 {
                    TapPhase::Redirect((i + 1) as u32)
                } else {
                    TapPhase::Flush
                },
            ),
            (TapPhase::Flush, TapEvent::Ran(r)) => self.to(
                if r is None {
                    TapPhase::Failed(TapError::Command)
                } else {
                    TapPhase::Finished
                },
            ),
            _ => self,
        }
    }

    /// Attempts are bounded.
    pub open spec fn wf(self) -> bool {
        match self.phase {
            TapPhase::Netns(n) => n < NETNS_ATTEMPTS,
            TapPhase::NetnsPause(n) => n + 1 < NETNS_ATTEMPTS,
            TapPhase::Addrs(n) => n < QUERY_ATTEMPTS,
            TapPhase::AddrsPause(n) => n + 1 < QUERY_ATTEMPTS,
            TapPhase::Routes(n) => n < QUERY_ATTEMPTS,
            TapPhase::RoutesPause(n) => n + 1 < QUERY_ATTEMPTS,
            TapPhase::Redirect(i) => i < 4,
            _ => true,
        }
    }
}

impl TapSetup {
    /// Starts the setup of a VM's network in a namespace.
    pub fn new(netns: &str, vm_id: &str) -> (res: Self)
        requires
            text::head_is_whole(vm_id@, 8),
        ensures
            res@.wf(),
            res@.netns == netns@,
            res@.tap == tap_name_spec(vm_id@),
            res@.phase == TapPhase::Netns(0),
    {
        TapSetup {
            netns: netns.to_owned(),
            tap: tap_name(vm_id),
            veth: Veth { name: String::new(), ip_cidr: String::new(), mac: String::new() },
            gateway: String::new(),
            phase: TapPhase::Netns(0),
        }
    }

    /// What to do next.
    pub fn action(&self) -> (res: TapAction)
        requires
            self@.wf(),
        ensures
            res@ == self@.action(),
    {
        let ns: &str = self.netns.as_str();
        let tap: &str = self.tap.as_str();
        let veth: &str = self.veth.name.as_str();
        match self.phase {
            TapPhase::Netns(_) => TapAction::CheckNetns,
            TapPhase::NetnsPause(_) => TapAction::Sleep(ATTEMPT_PAUSE_MS),
            TapPhase::DeleteStale => {
                let a: [&str; 4] = ["ip", "link", "del", tap];
                assert(text::strs(a@) =~= link_del(tap@));
                TapAction::Run(netns_command(ns, &a))
            },
            TapPhase::Create => {
                let a: [&str; 6] = ["ip", "tuntap", "add", tap, "mode", "tap"];
                assert(text::strs(a@) =~= tuntap_add(tap@));
                TapAction::Run(netns_command(ns, &a))
            },
            TapPhase::Up => {
                let a: [&str; 5] = ["ip", "link", "set", tap, "up"];
                assert(text::strs(a@) =~= link_up(tap@));
                TapAction::Run(netns_command(ns, &a))
            },
            TapPhase::Addrs(_) => {
                let a: [&str; 4] = ["ip", "-j", "addr", "show"];
                assert(text::strs(a@) =~= addr_show());
                TapAction::Capture(netns_command(ns, &a))
            },
            TapPhase::AddrsPause(_) => TapAction::Sleep(ATTEMPT_PAUSE_MS),
            TapPhase::Routes(_) => {
                let a: [&str; 5] = ["ip", "-j", "route", "show", "default"];
                assert(text::strs(a@) =~= route_show());
                TapAction::Capture(netns_command(ns, &a))
            },
            TapPhase::RoutesPause(_) => TapAction::Sleep(ATTEMPT_PAUSE_MS),
            TapPhase::Redirect(i) => {
                if i == 0 {
                    TapAction::Run(qdisc_add_command(ns, veth))
                } else if i == 1 {
                    TapAction::Run(redirect_command(ns, veth, tap))
                } else if i == 2 {
                    TapAction::Run(qdisc_add_command(ns, tap))
                } else {
                    TapAction::Run(redirect_command(ns, tap, veth))
                }
            },
            TapPhase::Flush => {
                let a: [&str; 5] = ["ip", "addr", "flush", "dev", veth];
                assert(text::strs(a@) =~= addr_flush(veth@));
                TapAction::Run(netns_command(ns, &a))
            },
            TapPhase::Finished => TapAction::Done(
                TapInfo {
                    tap_name: self.tap.clone(),
                    mac: self.veth.mac.clone(),
                    ip_cidr: self.veth.ip_cidr.clone(),
                    gateway: self.gateway.clone(),
                },
            ),
            TapPhase::Failed(e) => TapAction::Fail(e),
        }
    }

    /// Takes in whether the pod's interface was found.
    pub fn found_veth(&mut self, found: Option<Veth>)
        requires
            old(self)@.wf(),
        ensures
            final(self)@.wf(),
            final(self)@ == old(self)@.with_veth(
                match found {
                    Some(v) => Some(v@),
                    None => None,
                },
            ),
    {
        if let TapPhase::Addrs(n) = self.phase {
            match found {
                Some(v) => {
                    self.veth = v;
                    self.phase = TapPhase::Routes(0);
                },
                None => {
                    self.phase = if n + 1 < QUERY_ATTEMPTS {
                        TapPhase::AddrsPause(n)
                    } else {
                        TapPhase::Failed(TapError::NoVeth)
                    };
                },
            }
        }
    }

    /// Takes in whether the default route was found.
    pub fn found_gateway(&mut self, found: Option<String>)
        requires
            old(self)@.wf(),
        ensures
            final(self)@.wf(),
            final(self)@ == old(self)@.with_gateway(text::opt_string(found)),
    {
        if let TapPhase::Routes(n) = self.phase {
            match found {
                Some(g) => {
                    self.phase = if g.as_str().is_empty() {
                        TapPhase::Failed(TapError::NoGateway)
                    } else {
                        TapPhase::Redirect(0)
                    };
                    self.gateway = g;
                },
                None => {
                    self.phase = if n + 1 < QUERY_ATTEMPTS {
                        TapPhase::RoutesPause(n)
                    } else {
                        TapPhase::Failed(TapError::NoGateway)
                    };
                },
            }
        }
    }

    /// Takes in what came of the last action.
    pub fn step(&mut self, event: TapEvent)
        requires
            old(self)@.wf(),
        ensures
            final(self)@.wf(),
            final(self)@ == old(self)@.after(event),
    {
        match (self.phase, event) {
            (TapPhase::Netns(n), TapEvent::Netns(there)) => {
                self.phase = if there {
                    TapPhase::DeleteStale
                } else if n + 1 < NETNS_ATTEMPTS {
                    TapPhase::NetnsPause(n)
                } else {
                    TapPhase::Failed(TapError::NetnsMissing)
                };
            },
            (TapPhase::NetnsPause(n), TapEvent::Slept) => {
                self.phase = TapPhase::Netns(n + 1);
            },
            (TapPhase::DeleteStale, TapEvent::Ran(_)) => {
                self.phase = TapPhase::Create;
            },
            (TapPhase::Create, TapEvent::Ran(r)) => {
                self.phase = match r {
                    Some(true) => TapPhase::Up,
                    Some(false) => TapPhase::Failed(TapError::Create),
                    None => TapPhase::Failed(TapError::Command),
                };
            },
            (TapPhase::Up, TapEvent::Ran(r)) => {
                self.phase = match r {
                    Some(true) => TapPhase::Addrs(0),
                    Some(false) => TapPhase::Failed(TapError::Up),
                    None => TapPhase::Failed(TapError::Command),
                };
            },
            (TapPhase::Addrs(_), TapEvent::Captured(out)) => {
                match out {
                    Some(b) => {
                        let found: Option<Veth> = match json::parse_bytes(b.as_slice()) {
                            Some(doc) => find_veth_in(&doc, self.tap.as_str()),
                            None => None,
                        };
                        self.found_veth(found);
                    },
                    None => {
                        self.phase = TapPhase::Failed(TapError::Command);
                    },
                }
            },
            (TapPhase::AddrsPause(n), TapEvent::Slept) => {
                self.phase = TapPhase::Addrs(n + 1);
            },
            (TapPhase::Routes(_), TapEvent::Captured(out)) => {
                match out {
                    Some(b) => {
                        let found: Option<String> = match json::parse_bytes(b.as_slice()) {
                            Some(doc) => find_gateway_in(&doc),
                            None => None,
                        };
                        self.found_gateway(found);
                    },
                    None => {
                        self.phase = TapPhase::Failed(TapError::Command);
                    },
                }
            },
            (TapPhase::RoutesPause(n), TapEvent::Slept) => {
                self.phase = TapPhase::Routes(n + 1);
            },
            (TapPhase::Redirect(i), TapEvent::Ran(r)) => {
                self.phase = if r.is_none() {
                    TapPhase::Failed(TapError::Command)
                } else if i < 3 {
                    TapPhase::Redirect(i + 1)
                } else {
                    TapPhase::Flush
                };
            },
            (TapPhase::Flush, TapEvent::Ran(r)) => {
                self.phase = if r.is_none() {
                    TapPhase::Failed(TapError::Command)
                } else {
                    TapPhase::Finished
                };
            },
            _ => {},
        }
    }
}

/// Once interface and route are known, traffic is redirected both ways and the pod's address is
/// taken off its interface, whether or not the single commands succeed.
pub proof fn law_redirects_both_ways(s: TapSetupView, gateway: Seq<char>, ok: Seq<bool>)
    requires
        s.phase is Routes,
        gateway.len() > 0,
        ok.len() == 5,
    ensures
        ({
            let s0 = s.with_gateway(Some(gateway));
            let s1 = s0.after(TapEvent::Ran(Some(ok[0])));
            let s2 = s1.after(TapEvent::Ran(Some(ok[1])));
            let s3 = s2.after(TapEvent::Ran(Some(ok[2])));
            let s4 = s3.after(TapEvent::Ran(Some(ok[3])));
            let s5 = s4.after(TapEvent::Ran(Some(ok[4])));
            &&& s0.action() == TapActionView::Run(in_netns(s.netns, qdisc_add(s.veth.name)))
            &&& s1.action() == TapActionView::Run(in_netns(s.netns, redirect(s.veth.name, s.tap)))
            &&& s2.action() == TapActionView::Run(in_netns(s.netns, qdisc_add(s.tap)))
            &&& s3.action() == TapActionView::Run(in_netns(s.netns, redirect(s.tap, s.veth.name)))
            &&& s4.action() == TapActionView::Run(in_netns(s.netns, addr_flush(s.veth.name)))
            &&& s5.action() == TapActionView::Done {
                tap_name: s.tap,
                mac: s.veth.mac,
                ip_cidr: s.veth.ip_cidr,
                gateway,
            }
        }),
{
}

/// A setup that failed or finished stays so.
pub proof fn law_outcome_is_final(s: TapSetupView, event: TapEvent)
    requires
        s.phase is Failed || s.phase is Finished,
    ensures
        s.after(event) == s,
{
}

/// How often the whole setup is tried when a sandbox starts.
pub const SETUP_ATTEMPTS: u32 = 10;

/// The pause between two tries of the whole setup, in milliseconds.
pub const SETUP_PAUSE_MS: u64 = 500;

/// What follows a failed setup: the pause before the next try, or nothing where the VM is to boot
/// without a network. `attempt` counts from zero.
pub fn after_failed_setup(attempt: u32) -> (res: Option<u64>)
    ensures
        res == if attempt + 1 < SETUP_ATTEMPTS {
            Some(SETUP_PAUSE_MS)
        } else {
            None
        },
        res == pause_before_retry(attempt as nat),
{
    if attempt < SETUP_ATTEMPTS - 1 {
        Some(SETUP_PAUSE_MS)
    } else {
        None
    }
}

/// Every command of a setup runs in the network namespace of the pod.
#[verifier::spinoff_prover]
pub proof fn law_commands_run_in_namespace(s: TapSetupView)
    ensures
        match s.action() {
            TapActionView::Run(a) => a.len() > 2 && a[0] == "--net="@ + s.netns && a[1] == "--"@,
            TapActionView::Capture(a) => a.len() > 2 && a[0] == "--net="@ + s.netns && a[1]
                == "--"@,
            _ => true,
        },
{
}

/// The interface that a command is about: the word behind the first `dev`.
pub open spec fn device_in(a: Seq<Seq<char>>, from: int) -> Seq<char>
    decreases a.len() - from,
{
    if from < 0 || from + 1 >= a.len() {
        Seq::empty()
    } else if a[from] == "dev"@ {
        a[from + 1]
    } else {
        device_in(a, from + 1)
    }
}

proof fn lemma_words_apart()
    ensures
        "tc"@ != "dev"@,
        "filter"@ != "dev"@,
        "add"@ != "dev"@,
        "qdisc"@ != "dev"@,
        "ip"@ != "dev"@,
        "addr"@ != "dev"@,
        "flush"@ != "dev"@,
        "--"@ != "dev"@,
{
    reveal_strlit("tc");
    reveal_strlit("filter");
    reveal_strlit("add");
    reveal_strlit("qdisc");
    reveal_strlit("ip");
    reveal_strlit("addr");
    reveal_strlit("flush");
    reveal_strlit("--");
    reveal_strlit("dev");
    assert("tc"@.len() == 2 && "dev"@.len() == 3 && "ip"@.len() == 2 && "--"@.len() == 2);
    assert("filter"@[0] == 'f' && "add"@[0] == 'a' && "qdisc"@[0] == 'q' && "addr"@[0] == 'a'
        && "flush"@[0] == 'f' && "dev"@[0] == 'd');
}

/// The two filters of a setup mirror each other: what comes in on the pod's interface is redirected
/// to the TAP device, and what comes in on the TAP device to the pod's interface. Each command
/// names the interface it stands on behind `dev`, and where packets go as its last word.
pub proof fn law_filters_mirror(s: TapSetupView)
    ensures
        s.to(TapPhase::Redirect(1)).action() matches TapActionView::Run(a) && a[3] == "filter"@
            && a[4] == "add"@ && device_in(a, 2) == s.veth.name && a.last() == s.tap && a.contains(
            "redirect"@,
        ),
        s.to(TapPhase::Redirect(3)).action() matches TapActionView::Run(a) && a[3] == "filter"@
            && a[4] == "add"@ && device_in(a, 2) == s.tap && a.last() == s.veth.name && a.contains(
            "redirect"@,
        ),
        s.to(TapPhase::Redirect(0)).action() matches TapActionView::Run(a) && a[3] == "qdisc"@
            && device_in(a, 2) == s.veth.name && a.last() == "ingress"@,
        s.to(TapPhase::Redirect(2)).action() matches TapActionView::Run(a) && a[3] == "qdisc"@
            && device_in(a, 2) == s.tap && a.last() == "ingress"@,
        s.to(TapPhase::Flush).action() matches TapActionView::Run(a) && a[3] == "addr"@ && a[4]
            == "flush"@ && device_in(a, 2) == s.veth.name,
{
    lemma_words_apart();
    lemma_redirect_words(s.netns, s.veth.name, s.tap);
    lemma_redirect_words(s.netns, s.tap, s.veth.name);
    lemma_short_words(s.netns, s.veth.name);
    lemma_short_words(s.netns, s.tap);
}

proof fn lemma_redirect_words(netns: Seq<char>, from: Seq<char>, to: Seq<char>)
    ensures
        ({
            let a = in_netns(netns, redirect(from, to));
            &&& a[3] == "filter"@
            &&& a[4] == "add"@
            &&& device_in(a, 2) == from
            &&& a.last() == to
            &&& a.contains("redirect"@)
        }),
{
    lemma_words_apart();
    let a = in_netns(netns, redirect(from, to));
    assert(a.len() == 22);
    assert(a[2] == "tc"@ && a[3] == "filter"@ && a[4] == "add"@ && a[5] == "dev"@ && a[6] == from
        && a[19] == "redirect"@ && a[21] == to);
    reveal_with_fuel(device_in, 5);
}

proof fn lemma_short_words(netns: Seq<char>, dev: Seq<char>)
    ensures
        ({
            let a = in_netns(netns, qdisc_add(dev));
            &&& a[3] == "qdisc"@
            &&& device_in(a, 2) == dev
            &&& a.last() == "ingress"@
        }),
        ({
            let a = in_netns(netns, addr_flush(dev));
            &&& a[3] == "addr"@
            &&& a[4] == "flush"@
            &&& device_in(a, 2) == dev
        }),
{
    lemma_words_apart();
    let a = in_netns(netns, qdisc_add(dev));
    assert(a[2] == "tc"@ && a[3] == "qdisc"@ && a[4] == "add"@ && a[5] == "dev"@ && a[6] == dev
        && a[7] == "ingress"@ && a.len() == 8);
    let b = in_netns(netns, addr_flush(dev));
    assert(b[2] == "ip"@ && b[3] == "addr"@ && b[4] == "flush"@ && b[5] == "dev"@ && b[6] == dev
        && b.len() == 7);
    reveal_with_fuel(device_in, 5);
}

/// What a step that failed means: a device that could not be created or brought up fails the setup,
/// and so does any command that could not be started, but for the one that deletes a device left
/// behind. A namespace is waited for, up to twenty times a tenth of a second.
pub proof fn law_failed_steps(s: TapSetupView, n: u32)
    ensures
        s.phase == TapPhase::Create || s.phase == TapPhase::Up ==> s.after(
            TapEvent::Ran(Some(false)),
        ).action() is Fail && s.after(TapEvent::Ran(None)).action() is Fail && !(s.after(
            TapEvent::Ran(Some(true)),
        ).action() is Fail),
        s.phase is Redirect || s.phase == TapPhase::Flush ==> s.after(
            TapEvent::Ran(None),
        ).action() is Fail,
        s.phase is Addrs || s.phase is Routes ==> s.after(TapEvent::Captured(None)).action() is Fail,
        s.phase == TapPhase::DeleteStale ==> s.after(TapEvent::Ran(None)).phase == TapPhase::Create
            && s.after(TapEvent::Ran(Some(false))).phase == TapPhase::Create,
        s.phase == TapPhase::Netns(n) ==> s.after(TapEvent::Netns(true)).phase
            == TapPhase::DeleteStale,
        s.phase == TapPhase::Netns(n) && n < 19 ==> s.after(TapEvent::Netns(false)).action()
            == TapActionView::Sleep(100) && s.after(TapEvent::Netns(false)).after(
            TapEvent::Slept,
        ).phase == TapPhase::Netns((n + 1) as u32),
        s.phase == TapPhase::Netns(19) ==> s.after(TapEvent::Netns(false)).action() is Fail,
{
}

/// An interface or a route that is not there yet is looked for ten times, with a tenth of a second
/// in between; then the setup fails. What is found is kept as it is.
pub proof fn law_lookups(s: TapSetupView, n: u32, veth: VethView, gateway: Seq<char>)
    ensures
        s.phase == TapPhase::Addrs(n) ==> s.with_veth(Some(veth)).phase == TapPhase::Routes(0)
            && s.with_veth(Some(veth)).veth == veth,
        s.phase == TapPhase::Addrs(n) && n < 9 ==> s.with_veth(None).action()
            == TapActionView::Sleep(100) && s.with_veth(None).after(TapEvent::Slept).phase
            == TapPhase::Addrs((n + 1) as u32),
        s.phase == TapPhase::Addrs(9) ==> s.with_veth(None).action() is Fail,
        s.phase == TapPhase::Routes(n) && gateway.len() > 0 ==> s.with_gateway(
            Some(gateway),
        ).phase == TapPhase::Redirect(0) && s.with_gateway(Some(gateway)).gateway == gateway
            && s.with_gateway(Some(gateway)).veth == s.veth,
        s.phase == TapPhase::Routes(n) && gateway.len() == 0 ==> s.with_gateway(
            Some(gateway),
        ).action() is Fail,
        s.phase == TapPhase::Routes(n) && n < 9 ==> s.with_gateway(None).action()
            == TapActionView::Sleep(100) && s.with_gateway(None).after(TapEvent::Slept).phase
            == TapPhase::Routes((n + 1) as u32),
        s.phase == TapPhase::Routes(9) ==> s.with_gateway(None).action() is Fail,
{
}

/// Whether an address entry is of the IPv4 family.
pub open spec fn is_inet(a: JsonView) -> bool {
    a.field("family"@) == Some(JsonView::Text("inet"@))
}

/// Whether an interface can be the pod's side of the network: it has a name, is neither the loopback
/// nor the TAP device, and has an IPv4 address.
pub open spec fn is_pod_side(iface: JsonView, tap: Seq<char>) -> bool {
    &&& iface.field("ifname"@) matches Some(JsonView::Text(name)) && name.len() > 0 && name
        != "lo"@ && name != tap
    &&& iface.field("addr_info"@) matches Some(JsonView::Array(a)) && exists|k: int|
        0 <= k < a.len() && is_inet(#[trigger] a[k])
}

/// The IPv4 address of an interface is that of its first entry of the family, with a prefix length
/// of 24 where the entry has none.
pub proof fn law_first_inet(a: Seq<JsonView>)
    ensures
        match first_inet(a) {
            Some(t) => exists|k: int|
                0 <= k < a.len() && is_inet(#[trigger] a[k]) && (forall|j: int|
                    0 <= j < k ==> !is_inet(#[trigger] a[j])) && (forall|ip: Seq<char>, n: nat|
                    a[k].field("local"@) == Some(JsonView::Text(ip)) && a[k].field("prefixlen"@)
                        == Some(JsonView::Integer(n as int)) && n <= u64::MAX ==> t == #[trigger] (ip
                        + seq!['/'] + text::dec(n))),
            None => forall|k: int| 0 <= k < a.len() ==> !is_inet(#[trigger] a[k]),
        },
    decreases a.len(),
{
    reveal_strlit("/");
    assert("/"@ =~= seq!['/']);
    if a.len() > 0 {
        if is_inet(a[0]) {
        } else {
            let rest = a.skip(1);
            law_first_inet(rest);
            match first_inet(rest) {
                Some(t) => {
                    let k = choose|k: int|
                        0 <= k < rest.len() && is_inet(#[trigger] rest[k]) && (forall|j: int|
                            0 <= j < k ==> !is_inet(#[trigger] rest[j])) && (forall|
                            ip: Seq<char>,
                            n: nat,
                        |
                            rest[k].field("local"@) == Some(JsonView::Text(ip)) && rest[k].field(
                                "prefixlen"@,
                            ) == Some(JsonView::Integer(n as int)) && n <= u64::MAX ==> t
                                == #[trigger] (ip + seq!['/'] + text::dec(n)));
                    assert(a[k + 1] == rest[k]);
                    assert forall|j: int| 0 <= j < k + 1 implies !is_inet(#[trigger] a[j]) by {
                        if j > 0 {
                            assert(rest[j - 1] == a[j]);
                        }
                    }
                },
                None => {
                    assert forall|k: int| 0 <= k < a.len() implies !is_inet(#[trigger] a[k]) by {
                        if k > 0 {
                            assert(rest[k - 1] == a[k]);
                        }
                    }
                },
            }
        }
    }
}

/// The pod's interface is the first that can be it; its name and hardware address are those that the
/// kernel reports for it.
pub proof fn law_first_veth(ifaces: Seq<JsonView>, tap: Seq<char>)
    ensures
        match first_veth(ifaces, tap) {
            Some(v) => exists|i: int|
                0 <= i < ifaces.len() && is_pod_side(#[trigger] ifaces[i], tap)
                    && ifaces[i].field("ifname"@) == Some(JsonView::Text(v.name)) && (
                ifaces[i].field("address"@) matches Some(JsonView::Text(mac)) ==> v.mac == mac) && (
                ifaces[i].field("addr_info"@) matches Some(JsonView::Array(a)) ==> Some(v.ip_cidr)
                    == first_inet(a)) && (forall|k: int|
                    0 <= k < i ==> !is_pod_side(#[trigger] ifaces[k], tap)),
            None => forall|i: int|
                0 <= i < ifaces.len() ==> !is_pod_side(#[trigger] ifaces[i], tap),
        },
    decreases ifaces.len(),
{
    if ifaces.len() > 0 {
        lemma_pod_address(ifaces[0], tap);
        if pod_address(ifaces[0], tap) is None {
            let rest = ifaces.skip(1);
            law_first_veth(rest, tap);
            match first_veth(rest, tap) {
                Some(v) => {
                    let i = choose|i: int|
                        0 <= i < rest.len() && is_pod_side(#[trigger] rest[i], tap)
                            && rest[i].field("ifname"@) == Some(JsonView::Text(v.name)) && (
                        rest[i].field("address"@) matches Some(JsonView::Text(mac)) ==> v.mac
                            == mac) && (rest[i].field("addr_info"@) matches Some(JsonView::Array(a))
                            ==> Some(v.ip_cidr) == first_inet(a)) && (forall|k: int|
                            0 <= k < i ==> !is_pod_side(#[trigger] rest[k], tap));
                    assert(ifaces[i + 1] == rest[i]);
                    assert forall|k: int| 0 <= k < i + 1 implies !is_pod_side(
                        #[trigger] ifaces[k],
                        tap,
                    ) by {
                        if k > 0 {
                            assert(rest[k - 1] == ifaces[k]);
                        }
                    }
                },
                None => {
                    assert forall|i: int| 0 <= i < ifaces.len() implies !is_pod_side(
                        #[trigger] ifaces[i],
                        tap,
                    ) by {
                        if i > 0 {
                            assert(rest[i - 1] == ifaces[i]);
                        }
                    }
                },
            }
        } else {
            assert(is_pod_side(ifaces[0], tap));
        }
    }
}

proof fn lemma_pod_address(iface: JsonView, tap: Seq<char>)
    ensures
        pod_address(iface, tap) is Some <==> is_pod_side(iface, tap),
{
    if let Some(JsonView::Array(a)) = iface.field("addr_info"@) {
        law_first_inet(a);
    }
}

/// The commands that make the TAP device are about that device: one deletes what was left behind,
/// one creates it as a TAP, and one brings it up.
pub proof fn law_device_commands(s: TapSetupView)
    ensures
        s.to(TapPhase::DeleteStale).action() matches TapActionView::Run(a) && a.skip(2) == seq![
            "ip"@,
            "link"@,
            "del"@,
            s.tap,
        ],
        s.to(TapPhase::Create).action() matches TapActionView::Run(a) && a.skip(2) == seq![
            "ip"@,
            "tuntap"@,
            "add"@,
            s.tap,
            "mode"@,
            "tap"@,
        ],
        s.to(TapPhase::Up).action() matches TapActionView::Run(a) && a.skip(2) == seq![
            "ip"@,
            "link"@,
            "set"@,
            s.tap,
            "up"@,
        ],
        s.to(TapPhase::Finished).action() == (TapActionView::Done {
            tap_name: s.tap,
            mac: s.veth.mac,
            ip_cidr: s.veth.ip_cidr,
            gateway: s.gateway,
        }),
{
    assert(in_netns(s.netns, link_del(s.tap)).skip(2) =~= seq!["ip"@, "link"@, "del"@, s.tap]);
    assert(in_netns(s.netns, tuntap_add(s.tap)).skip(2) =~= seq![
        "ip"@,
        "tuntap"@,
        "add"@,
        s.tap,
        "mode"@,
        "tap"@,
    ]);
    assert(in_netns(s.netns, link_up(s.tap)).skip(2) =~= seq!["ip"@, "link"@, "set"@, s.tap, "up"@]);
}

/// The gateway is that of the first route, where it has one.
pub proof fn law_gateway_of_first_route(a: Seq<JsonView>, g: Seq<char>)
    ensures
        gateway_in(JsonView::Array(a)) == Some(g) <==> a.len() > 0 && a[0].field("gateway"@)
            == Some(JsonView::Text(g)),
{
}

/// The TAP device of a VM is named after the first eight characters of the VM's name, and so fits
/// in the fifteen characters of an interface name.
pub proof fn law_tap_name(vm_id: Seq<char>)
    requires
        vstd::utf8::is_ascii_chars(vm_id),
    ensures
        tap_name_spec(vm_id).len() <= 12,
        tap_name_spec(vm_id).take(4) == seq!['t', 'a', 'p', '_'],
        forall|i: int|
            0 <= i < 8 && i < vm_id.len() ==> #[trigger] vm_id[i] == tap_name_spec(vm_id)[i + 4],
        vm_id.len() >= 8 ==> tap_name_spec(vm_id).len() == 12,
{
    reveal_strlit("tap_");
    text::lemma_head_ascii(vm_id, 8);
    assert("tap_"@ =~= seq!['t', 'a', 'p', '_']);
    assert(tap_name_spec(vm_id).take(4) =~= seq!['t', 'a', 'p', '_']);
}

/// The pause before another try of the whole setup, where there is one. The tries count from zero.
pub open spec fn pause_before_retry(attempt: nat) -> Option<u64> {
    if attempt + 1 < SETUP_ATTEMPTS {
        Some(SETUP_PAUSE_MS)
    } else {
        None
    }
}

/// The whole setup is tried ten times, half a second apart.
pub proof fn law_setup_retries(attempt: nat)
    ensures
        attempt < 9 ==> pause_before_retry(attempt) == Some(500u64),
        attempt >= 9 ==> pause_before_retry(attempt) is None,
{
}

/// A setup looks for the namespace, then lists interfaces and routes as JSON, and tells its end.
pub proof fn law_setup_asks(s: TapSetupView)
    ensures
        s.phase is Netns ==> s.action() == TapActionView::CheckNetns,
        s.phase is Addrs ==> (s.action() matches TapActionView::Capture(a) && a.skip(2) == seq![
            "ip"@,
            "-j"@,
            "addr"@,
            "show"@,
        ]),
        s.phase is Routes ==> (s.action() matches TapActionView::Capture(a) && a.skip(2) == seq![
            "ip"@,
            "-j"@,
            "route"@,
            "show"@,
            "default"@,
        ]),
        s.phase matches TapPhase::Failed(e) ==> s.action() == TapActionView::Fail(e),
{
    assert(in_netns(s.netns, addr_show()).skip(2) =~= seq!["ip"@, "-j"@, "addr"@, "show"@]);
    assert(in_netns(s.netns, route_show()).skip(2) =~= seq![
        "ip"@,
        "-j"@,
        "route"@,
        "show"@,
        "default"@,
    ]);
}

/// A setup goes on from step to step: what a command gave leads to the next one. A failed setup says
/// at which step it failed.
pub proof fn law_setup_goes_on(s: TapSetupView, b: Vec<u8>, i: u32, ok: bool)
    ensures
        s.phase == TapPhase::Create ==> s.after(TapEvent::Ran(Some(true))).phase == TapPhase::Up
            && s.after(TapEvent::Ran(Some(false))).phase == TapPhase::Failed(TapError::Create)
            && s.after(TapEvent::Ran(None)).phase == TapPhase::Failed(TapError::Command),
        s.phase == TapPhase::Up ==> s.after(TapEvent::Ran(Some(true))).phase == TapPhase::Addrs(0)
            && s.after(TapEvent::Ran(Some(false))).phase == TapPhase::Failed(TapError::Up)
            && s.after(TapEvent::Ran(None)).phase == TapPhase::Failed(TapError::Command),
        s.phase is Addrs && json::parsed_bytes(b@) is Some ==> s.after(
            TapEvent::Captured(Some(b)),
        ) == s.with_veth(veth_in(json::parsed_bytes(b@)->Some_0, s.tap)),
        s.phase is Addrs && json::parsed_bytes(b@) is None ==> s.after(
            TapEvent::Captured(Some(b)),
        ) == s.with_veth(None),
        s.phase is Routes && json::parsed_bytes(b@) is Some ==> s.after(
            TapEvent::Captured(Some(b)),
        ) == s.with_gateway(gateway_in(json::parsed_bytes(b@)->Some_0)),
        s.phase is Routes && json::parsed_bytes(b@) is None ==> s.after(
            TapEvent::Captured(Some(b)),
        ) == s.with_gateway(None),
        s.phase == TapPhase::Redirect(i) && i < 3 ==> s.after(TapEvent::Ran(Some(ok))).phase
            == TapPhase::Redirect((i + 1) as u32),
        s.phase == TapPhase::Redirect(3) ==> s.after(TapEvent::Ran(Some(ok))).phase
            == TapPhase::Flush,
        s.phase == TapPhase::Flush ==> s.after(TapEvent::Ran(Some(ok))).phase == TapPhase::Finished,
        s.phase == TapPhase::Netns(19) ==> s.after(TapEvent::Netns(false)).phase
            == TapPhase::Failed(TapError::NetnsMissing),
        s.phase == TapPhase::Addrs(9) ==> s.with_veth(None).phase == TapPhase::Failed(
            TapError::NoVeth,
        ),
        s.phase == TapPhase::Routes(9) ==> s.with_gateway(None).phase == TapPhase::Failed(
            TapError::NoGateway,
        ),
        s.phase is Routes ==> s.with_gateway(Some(Seq::empty())).phase == TapPhase::Failed(
            TapError::NoGateway,
        ),
        s.phase is Redirect || s.phase == TapPhase::Flush ==> s.after(TapEvent::Ran(None)).phase
            == TapPhase::Failed(TapError::Command),
        s.phase is Addrs || s.phase is Routes ==> s.after(TapEvent::Captured(None)).phase
            == TapPhase::Failed(TapError::Command),
{
}

} // verus!
