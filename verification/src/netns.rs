//! Setting up a VM's TAP device with netlink requests instead of commands.
//!
//! [`NetlinkSetup`] runs inside the pod's network namespace. Like its counterpart that uses
//! commands, it asks for one thing at a time and is told what came of it.

use crate::netlink;
use crate::netlink::Link;
use crate::tap;
use crate::tap::TapInfo;
use crate::text;
use crate::vm::SocketWait;
use vstd::prelude::*;

verus! {

/// The size of an interface request.
pub const IFREQ_SIZE: usize = 40;

/// The interface request that creates a TAP device without packet headers: up to 15 bytes of the
/// name, then the flags.
pub open spec fn tap_ifreq_spec(name: Seq<u8>) -> Seq<u8> {
    let n = text::lesser(name.len() as int, 15);
    name.take(n) + netlink::zeros(16 - n) + netlink::u16le(0x1002) + netlink::zeros(22)
}

/// Builds the interface request that creates a TAP device.
pub fn tap_ifreq(name: &str) -> (res: Vec<u8>)
    ensures
        res@ == tap_ifreq_spec(text::bytes(name@)),
        res@.len() == IFREQ_SIZE,
{
    let b: &[u8] = name.as_bytes();
    let n: usize = if b.len() < 15 {
        b.len()
    } else {
        15
    };
    let mut out: Vec<u8> = netlink::copy_range(b, 0, n);
    assert(out@ =~= b@.take(n as int));
    netlink::push_zeros(&mut out, 16 - n);
    netlink::push_u16(&mut out, 0x1002);
    netlink::push_zeros(&mut out, 22);
    out
}

/// How often interface and route are looked for.
pub const LOOKUP_ATTEMPTS: u32 = 20;

/// The pause after an attempt, in milliseconds.
pub const LOOKUP_PAUSE_MS: u64 = 100;

/// The error number for something that exists already.
pub const EEXIST: i32 = 17;

/// At which step a setup failed.
#[derive(Debug, Clone, Copy, PartialEq, Eq, Structural)]
pub enum SetupError {
    CreateTap,
    TapIndex,
    TapUp,
    FindVeth,
    FindGateway,
    Ingress,
    Redirect,
}

/// How far a setup has come.
#[derive(Debug, Clone, Copy, PartialEq, Eq, Structural)]
pub enum NlPhase {
    /// A device that an earlier attempt left behind is being looked for.
    FindStale,
    /// It is being deleted.
    DeleteStale(u32),
    Create,
    TapIndex,
    Up,
    /// The links are being listed; so many attempts came before.
    Links(u32),
    /// The addresses are being listed, to see whether the link with this number has one; so many
    /// attempts came before.
    Addrs(u32, usize),
    VethPause(u32),
    Routes(u32),
    RoutePause(u32),
    VethIngress,
    VethRedirect,
    TapIngress,
    TapRedirect,
    /// The addresses of the pod's interface are being listed, to be removed.
    FlushList,
    /// The address with this number is being removed.
    FlushDelete(usize),
    Finished,
    Failed(SetupError),
}

/// What to do next.
#[derive(Debug)]
pub enum NlAction {
    /// Send this request and take the reply.
    Request(Vec<u8>),
    /// Send this request and collect the messages of the dump.
    Dump(Vec<u8>),
    /// Create a persistent TAP device with this interface request.
    CreateTap(Vec<u8>),
    /// Wait so many milliseconds.
    Sleep(u64),
    /// Nothing: the network is set up.
    Done(TapInfo),
    /// Nothing: the setup failed.
    Fail(SetupError),
}

/// What came of an action.
#[derive(Debug)]
pub enum NlEvent {
    /// The reply to a request; nothing where the socket failed.
    Reply(Option<Vec<u8>>),
    /// The messages of a dump; nothing where it failed.
    Dumped(Option<Vec<Vec<u8>>>),
    /// Whether the TAP device was created.
    Created(bool),
    Slept,
}

/// What to do next.
pub enum NlActionView {
    Request(Seq<u8>),
    Dump(Seq<u8>),
    CreateTap(Seq<u8>),
    Sleep(u64),
    Done { tap_name: Seq<char>, mac: Seq<char>, ip_cidr: Seq<char>, gateway: Seq<char> },
    Fail(SetupError),
}

impl View for NlAction {
    type V = NlActionView;

    open spec fn view(&self) -> NlActionView {
        match *self {
            NlAction::Request(m) => NlActionView::Request(m@),
            NlAction::Dump(m) => NlActionView::Dump(m@),
            NlAction::CreateTap(m) => NlActionView::CreateTap(m@),
            NlAction::Sleep(n) => NlActionView::Sleep(n),
            NlAction::Done(i) => NlActionView::Done {
                tap_name: i.tap_name@,
                mac: i.mac@,
                ip_cidr: i.ip_cidr@,
                gateway: i.gateway@,
            },
            NlAction::Fail(e) => NlActionView::Fail(e),
        }
    }
}

/// A setup under way.
pub struct NetlinkSetup {
    pub tap: String,
    /// The sequence number of the next request.
    pub seq: u32,
    pub tap_index: u32,
    pub links: Vec<Link>,
    pub veth_index: u32,
    pub mac: String,
    pub ip_cidr: String,
    pub gateway: String,
    pub deletions: Vec<Vec<u8>>,
    pub phase: NlPhase,
}

/// The state of a setup.
pub struct NetlinkSetupView {
    pub tap: Seq<char>,
    pub seq: u32,
    pub tap_index: u32,
    pub links: Seq<Link>,
    pub veth_index: u32,
    pub mac: Seq<char>,
    pub ip_cidr: Seq<char>,
    pub gateway: Seq<char>,
    pub deletions: Seq<Seq<u8>>,
    pub phase: NlPhase,
}

impl View for NetlinkSetup {
    type V = NetlinkSetupView;

    open spec fn view(&self) -> NetlinkSetupView {
        NetlinkSetupView {
            tap: self.tap@,
            seq: self.seq,
            tap_index: self.tap_index,
            links: self.links@,
            veth_index: self.veth_index,
            mac: self.mac@,
            ip_cidr: self.ip_cidr@,
            gateway: self.gateway@,
            deletions: netlink::contents(self.deletions@),
            phase: self.phase,
        }
    }
}

/// The index that the reply to a request for a link gives.
pub open spec fn index_in(reply: Option<Seq<u8>>) -> Option<u32> {
    match reply {
        Some(r) => if netlink::reply_error(r) == 0 && r.len() >= 24 {
            Some(netlink::le32(r, 20) as u32)
        } else {
            None
        },
        None => None,
    }
}

/// Whether a reply acknowledges a request.
pub open spec fn acknowledged(reply: Option<Seq<u8>>) -> bool {
    reply matches Some(r) && netlink::reply_error(r) == 0
}

/// Whether a reply says that what was to be added is there, now or already.
pub open spec fn present(reply: Option<Seq<u8>>) -> bool {
    reply matches Some(r) && (netlink::reply_error(r) == 0 || netlink::reply_error(r) == EEXIST)
}

/// The bytes of an optional buffer.
pub open spec fn opt_bytes(b: Option<Vec<u8>>) -> Option<Seq<u8>> {
    match b {
        Some(v) => Some(v@),
        None => None,
    }
}

impl NetlinkSetupView {
    pub open spec fn to(self, phase: NlPhase) -> NetlinkSetupView {
        NetlinkSetupView { phase, ..self }
    }

    /// The state once a request was answered: its sequence number is used up.
    pub open spec fn answered(self) -> NetlinkSetupView {
        NetlinkSetupView { seq: self.seq.wrapping_add(1), ..self }
    }

    /// What the setup asks for in its phase.
    pub open spec fn action(self) -> NlActionView {
        let seq = self.seq as int;
        let veth = self.veth_index as int;
        let tap = self.tap_index as int;
        match self.phase {
            NlPhase::FindStale | NlPhase::TapIndex => NlActionView::Request(
                netlink::link_query(self.tap, seq),
            ),
            NlPhase::DeleteStale(i) => NlActionView::Request(
                netlink::message(17, 5, seq, netlink::link_info(i as int, 0, 0)),
            ),
            NlPhase::Create => NlActionView::CreateTap(tap_ifreq_spec(text::bytes(self.tap))),
            NlPhase::Up => NlActionView::Request(
                netlink::message(16, 5, seq, netlink::link_info(tap, 1, 1)),
            ),
            NlPhase::Links(_) => NlActionView::Dump(
                netlink::message(18, 0x301, seq, netlink::zeros(16)),
            ),
            NlPhase::Addrs(_, _) | NlPhase::FlushList => NlActionView::Dump(
                netlink::message(22, 0x301, seq, seq![netlink::AF_INET] + netlink::zeros(7)),
            ),
            NlPhase::VethPause(_) | NlPhase::RoutePause(_) => NlActionView::Sleep(LOOKUP_PAUSE_MS),
            NlPhase::Routes(_) => NlActionView::Dump(
                netlink::message(26, 0x301, seq, seq![netlink::AF_INET] + netlink::zeros(11)),
            ),
            NlPhase::VethIngress => NlActionView::Request(
                netlink::message(36, 0x605, seq, netlink::ingress(veth)),
            ),
            NlPhase::VethRedirect => NlActionView::Request(
                netlink::message(44, 0x605, seq, netlink::redirect(veth, tap)),
            ),
            NlPhase::TapIngress => NlActionView::Request(
                netlink::message(36, 0x605, seq, netlink::ingress(tap)),
            ),
            NlPhase::TapRedirect => NlActionView::Request(
                netlink::message(44, 0x605, seq, netlink::redirect(tap, veth)),
            ),
            NlPhase::FlushDelete(i) => NlActionView::Request(self.deletions[i as int]),
            NlPhase::Finished => NlActionView::Done {
                tap_name: self.tap,
                mac: self.mac,
                ip_cidr: self.ip_cidr,
                gateway: self.gateway,
            },
            NlPhase::Failed(e) => NlActionView::Fail(e),
        }
    }

    /// The state after a reply.
    pub open spec fn after_reply(self, reply: Option<Seq<u8>>) -> NetlinkSetupView {
        let s = self.answered();
        match self.phase {
            NlPhase::FindStale => s.to(
                match index_in(reply) {
                    Some(i) => NlPhase::DeleteStale(i),
                    None => NlPhase::Create,
                },
            ),
            NlPhase::DeleteStale(_) => s.to(NlPhase::Create),
            NlPhase::TapIndex => match index_in(reply) {
                Some(i) => NetlinkSetupView { tap_index: i, phase: NlPhase::Up, ..s },
                None => s.to(NlPhase::Failed(SetupError::TapIndex)),
            },
            NlPhase::Up => s.to(
                if acknowledged(reply) {
                    NlPhase::Links(0)
                } else {
                    NlPhase::Failed(SetupError::TapUp)
                },
            ),
            NlPhase::VethIngress => s.to(
                if present(reply) {
                    NlPhase::VethRedirect
                } else {
                    NlPhase::Failed(SetupError::Ingress)
                },
            ),
            NlPhase::VethRedirect => s.to(
                if acknowledged(reply) {
                    NlPhase::TapIngress
                } else {
                    NlPhase::Failed(SetupError::Redirect)
                },
            ),
            NlPhase::TapIngress => s.to(
                if present(reply) {
                    NlPhase::TapRedirect
                } else {
                    NlPhase::Failed(SetupError::Ingress)
                },
            ),
            NlPhase::TapRedirect => s.to(
                if acknowledged(reply) {
                    NlPhase::FlushList
                } else {
                    NlPhase::Failed(SetupError::Redirect)
                },
            ),
            NlPhase::FlushDelete(i) => s.to(
                if acknowledged(reply) && i + 1 < self.deletions.len() {
                    NlPhase::FlushDelete((i + 1) as usize)
                } else {
                    NlPhase::Finished
                },
            ),
            _ => self,
        }
    }

    /// The state in which the addresses are listed for the first link from `from` on that may be
    /// the pod's interface; where there is none, the attempt has failed.
    pub open spec fn trying(self, n: u32, from: int) -> NetlinkSetupView {
        let i = netlink::next_candidate(self.links, self.tap, from);
        self.to(
            if i < self.links.len() {
                NlPhase::Addrs(n, i as usize)
            } else {
                NlPhase::VethPause(n)
            },
        )
    }

    /// The state after the addresses were listed for a link: that is the pod's interface, where it
    /// has one.
    pub open spec fn after_addresses(self, n: u32, i: int, addrs: Seq<Seq<u8>>) -> NetlinkSetupView {
        match netlink::first_address(addrs, self.links[i].index as int) {
            Some(ip_cidr) => NetlinkSetupView {
                veth_index: self.links[i].index,
                mac: self.links[i].mac@,
                ip_cidr,
                phase: NlPhase::Routes(0),
                ..self.answered()
            },
            None => self.answered().trying(n, i + 1),
        }
    }

    /// The state after an attempt to find the default route.
    pub open spec fn after_routes(self, n: u32, routes: Seq<Seq<u8>>) -> NetlinkSetupView {
        match netlink::first_gateway(routes) {
            Some(gateway) => NetlinkSetupView {
                gateway,
                phase: NlPhase::VethIngress,
                ..self.answered()
            },
            None => self.answered().to(NlPhase::RoutePause(n)),
        }
    }

    /// Whether `next` is the state after the messages of a dump came. Failing to remove addresses
    /// does not fail the setup.
    pub open spec fn after_dump(
        self,
        msgs: Option<Seq<Seq<u8>>>,
        next: NetlinkSetupView,
    ) -> bool {
        let s = self.answered();
        match (self.phase, msgs) {
            (NlPhase::Links(n), Some(m)) => {
                &&& netlink::links_of(m, next.links)
                &&& next == (NetlinkSetupView { links: next.links, ..s }).trying(n, 0)
            },
            (NlPhase::Addrs(n, i), Some(m)) => next == self.after_addresses(n, i as int, m),
            (NlPhase::Links(_), None) | (NlPhase::Addrs(_, _), None) => next == s.to(
                NlPhase::Failed(SetupError::FindVeth),
            ),
            (NlPhase::Routes(n), Some(m)) => next == self.after_routes(n, m),
            (NlPhase::Routes(_), None) => next == s.to(NlPhase::Failed(SetupError::FindGateway)),
            (NlPhase::FlushList, Some(m)) => {
                let d = netlink::deletions(m, self.veth_index as int, s.seq as int);
                next == NetlinkSetupView {
                    deletions: d,
                    phase: if d.len() > 0 {
                        NlPhase::FlushDelete(0)
                    } else {
                        NlPhase::Finished
                    },
                    ..s
                }
            },
            (NlPhase::FlushList, None) => next == s.to(NlPhase::Finished),
            _ => next == self,
        }
    }

    /// The state after a pause.
    pub open spec fn after_pause(self) -> NetlinkSetupView {
        match self.phase {
            NlPhase::VethPause(n) => self.to(
                if n + 1 < LOOKUP_ATTEMPTS {
                    NlPhase::Links((n + 1) as u32)
                } else {
                    NlPhase::Failed(SetupError::FindVeth)
                },
            ),
            NlPhase::RoutePause(n) => self.to(
                if n + 1 < LOOKUP_ATTEMPTS {
                    NlPhase::Routes((n + 1) as u32)
                } else {
                    NlPhase::Failed(SetupError::FindGateway)
                },
            ),
            _ => self,
        }
    }

    /// Attempts are bounded, and a link that is looked at or an address that is being removed is in
    /// its list.
    pub open spec fn wf(self) -> bool {
        match self.phase {
            NlPhase::Links(n) | NlPhase::VethPause(n) | NlPhase::Routes(n) | NlPhase::RoutePause(
                n,
            ) => n < LOOKUP_ATTEMPTS,
            NlPhase::Addrs(n, i) => n < LOOKUP_ATTEMPTS && i < self.links.len(),
            NlPhase::FlushDelete(i) => i < self.deletions.len(),
            _ => true,
        }
    }
}

impl NetlinkSetup {
    /// Starts the setup of a TAP device.
    pub fn new(tap: &str) -> (res: Self)
        ensures
            res@.wf(),
            res@.tap == tap@,
            res@.seq == 1,
            res@.phase == NlPhase::FindStale,
    {
        NetlinkSetup {
            tap: tap.to_owned(),
            seq: 1,
            tap_index: 0,
            links: Vec::new(),
            veth_index: 0,
            mac: String::new(),
            ip_cidr: String::new(),
            gateway: String::new(),
            deletions: Vec::new(),
            phase: NlPhase::FindStale,
        }
    }

    /// What to do next.
    pub fn action(&self) -> (res: NlAction)
        requires
            self@.wf(),
            text::bytes(self@.tap).len() <= 65530,
        ensures
            res@ == self@.action(),
    {
        match self.phase {
            NlPhase::FindStale | NlPhase::TapIndex => NlAction::Request(
                netlink::get_link_request(self.tap.as_str(), self.seq),
            ),
            NlPhase::DeleteStale(i) => NlAction::Request(netlink::del_link_request(i, self.seq)),
            NlPhase::Create => NlAction::CreateTap(tap_ifreq(self.tap.as_str())),
            NlPhase::Up => NlAction::Request(
                netlink::set_link_up_request(self.tap_index, self.seq),
            ),
            NlPhase::Links(_) => NlAction::Dump(netlink::dump_links_request(self.seq)),
            NlPhase::Addrs(_, _) | NlPhase::FlushList => NlAction::Dump(
                netlink::dump_addresses_request(self.seq),
            ),
            NlPhase::VethPause(_) | NlPhase::RoutePause(_) => NlAction::Sleep(LOOKUP_PAUSE_MS),
            NlPhase::Routes(_) => NlAction::Dump(netlink::dump_routes_request(self.seq)),
            NlPhase::VethIngress => NlAction::Request(
                netlink::add_ingress_qdisc_request(self.veth_index, self.seq),
            ),
            NlPhase::VethRedirect => NlAction::Request(
                netlink::add_redirect_filter_request(self.veth_index, self.tap_index, self.seq),
            ),
            NlPhase::TapIngress => NlAction::Request(
                netlink::add_ingress_qdisc_request(self.tap_index, self.seq),
            ),
            NlPhase::TapRedirect => NlAction::Request(
                netlink::add_redirect_filter_request(self.tap_index, self.veth_index, self.seq),
            ),
            NlPhase::FlushDelete(i) => {
                let d: &Vec<u8> = &self.deletions[i];
                let copy: Vec<u8> = netlink::copy_range(d.as_slice(), 0, d.len());
                assert(copy@ =~= d@);
                NlAction::Request(copy)
            },
            NlPhase::Finished => NlAction::Done(
                TapInfo {
                    tap_name: self.tap.clone(),
                    mac: self.mac.clone(),
                    ip_cidr: self.ip_cidr.clone(),
                    gateway: self.gateway.clone(),
                },
            ),
            NlPhase::Failed(e) => NlAction::Fail(e),
        }
    }

    /// Takes in the reply to a request.
    pub fn on_reply(&mut self, reply: Option<Vec<u8>>)
        requires
            old(self)@.wf(),
        ensures
            final(self)@.wf(),
            final(self)@ == old(self)@.after_reply(opt_bytes(reply)),
    {
        let index: Option<u32> = match &reply {
            Some(r) => match netlink::read_link_index(r.as_slice()) {
                Ok(i) => Some(i),
                Err(_) => None,
            },
            None => None,
        };
        let error: Option<i32> = match &reply {
            Some(r) => match netlink::read_ack(r.as_slice()) {
                Ok(()) => Some(0),
                Err(e) => Some(e),
            },
            None => None,
        };
        let ok: bool = error == Some(0i32);
        let there: bool = ok || error == Some(EEXIST);
        let next: NlPhase = match self.phase {
            NlPhase::FindStale => match index {
                Some(i) => NlPhase::DeleteStale(i),
                None => NlPhase::Create,
            },
            NlPhase::DeleteStale(_) => NlPhase::Create,
            NlPhase::TapIndex => match index {
                Some(i) => {
                    self.tap_index = i;
                    NlPhase::Up
                },
                None => NlPhase::Failed(SetupError::TapIndex),
            },
            NlPhase::Up => if ok {
                NlPhase::Links(0)
            } else {
                NlPhase::Failed(SetupError::TapUp)
            },
            NlPhase::VethIngress => if there {
                NlPhase::VethRedirect
            } else {
                NlPhase::Failed(SetupError::Ingress)
            },
            NlPhase::VethRedirect => if ok {
                NlPhase::TapIngress
            } else {
                NlPhase::Failed(SetupError::Redirect)
            },
            NlPhase::TapIngress => if there {
                NlPhase::TapRedirect
            } else {
                NlPhase::Failed(SetupError::Ingress)
            },
            NlPhase::TapRedirect => if ok {
                NlPhase::FlushList
            } else {
                NlPhase::Failed(SetupError::Redirect)
            },
            NlPhase::FlushDelete(i) => if ok && i < self.deletions.len() - 1 {
                NlPhase::FlushDelete(i + 1)
            } else {
                NlPhase::Finished
            },
            _ => {
                return;
            },
        };
        self.seq = self.seq.wrapping_add(1);
        self.phase = next;
    }

    fn try_from(&mut self, n: u32, from: usize)
        requires
            n < LOOKUP_ATTEMPTS,
            from <= old(self)@.links.len(),
        ensures
            final(self)@.wf(),
            final(self)@ == old(self)@.trying(n, from as int),
    {
        self.phase = match netlink::find_candidate(&self.links, self.tap.as_str(), from) {
            Some(i) => NlPhase::Addrs(n, i),
            None => NlPhase::VethPause(n),
        };
    }

    /// Takes in the messages of a dump.
    pub fn on_dump(&mut self, msgs: Option<Vec<Vec<u8>>>)
        requires
            old(self)@.wf(),
        ensures
            final(self)@.wf(),
            old(self)@.after_dump(
                match msgs {
                    Some(m) => Some(netlink::contents(m@)),
                    None => None,
                },
                final(self)@,
            ),
    {
        let seq: u32 = self.seq.wrapping_add(1);
        match (self.phase, msgs) {
            (NlPhase::Links(n), Some(m)) => {
                self.links = netlink::read_links(&m);
                self.seq = seq;
                self.try_from(n, 0);
            },
            (NlPhase::Addrs(n, i), Some(m)) => {
                let count: usize = self.links.len();
                assert(i < count);
                self.seq = seq;
                match netlink::get_ipv4(&m, self.links[i].index) {
                    Some(cidr) => {
                        self.veth_index = self.links[i].index;
                        self.mac = self.links[i].mac.clone();
                        self.ip_cidr = cidr;
                        self.phase = NlPhase::Routes(0);
                    },
                    None => self.try_from(n, i + 1),
                }
            },
            (NlPhase::Links(_), None) | (NlPhase::Addrs(_, _), None) => {
                self.seq = seq;
                self.phase = NlPhase::Failed(SetupError::FindVeth);
            },
            (NlPhase::Routes(n), Some(m)) => {
                match netlink::get_default_gw(&m) {
                    Some(g) => {
                        self.gateway = g;
                        self.phase = NlPhase::VethIngress;
                    },
                    None => {
                        self.phase = NlPhase::RoutePause(n);
                    },
                }
                self.seq = seq;
            },
            (NlPhase::Routes(_), None) => {
                self.seq = seq;
                self.phase = NlPhase::Failed(SetupError::FindGateway);
            },
            (NlPhase::FlushList, Some(m)) => {
                let d: Vec<Vec<u8>> = netlink::flush_requests(&m, self.veth_index, seq);
                assert(netlink::contents(d@).len() == d@.len());
                self.phase = if d.len() > 0 {
                    NlPhase::FlushDelete(0)
                } else {
                    NlPhase::Finished
                };
                self.deletions = d;
                self.seq = seq;
            },
            (NlPhase::FlushList, None) => {
                self.seq = seq;
                self.phase = NlPhase::Finished;
            },
            _ => {},
        }
    }

    /// Takes in whether the TAP device was created.
    pub fn on_created(&mut self, ok: bool)
        requires
            old(self)@.wf(),
        ensures
            final(self)@.wf(),
            final(self)@ == if old(self)@.phase == NlPhase::Create {
                old(self)@.to(
                    if ok {
                        NlPhase::TapIndex
                    } else {
                        NlPhase::Failed(SetupError::CreateTap)
                    },
                )
            } else {
                old(self)@
            },
    {
        if let NlPhase::Create = self.phase {
            self.phase = if ok {
                NlPhase::TapIndex
            } else {
                NlPhase::Failed(SetupError::CreateTap)
            };
        }
    }

    /// Goes on after a pause.
    pub fn on_pause(&mut self)
        requires
            old(self)@.wf(),
        ensures
            final(self)@.wf(),
            final(self)@ == old(self)@.after_pause(),
    {
        match self.phase {
            NlPhase::VethPause(n) => {
                self.phase = if n + 1 < LOOKUP_ATTEMPTS {
                    NlPhase::Links(n + 1)
                } else {
                    NlPhase::Failed(SetupError::FindVeth)
                };
            },
            NlPhase::RoutePause(n) => {
                self.phase = if n + 1 < LOOKUP_ATTEMPTS {
                    NlPhase::Routes(n + 1)
                } else {
                    NlPhase::Failed(SetupError::FindGateway)
                };
            },
            _ => {},
        }
    }

    /// Takes in what came of the last action.
    pub fn step(&mut self, event: NlEvent)
        requires
            old(self)@.wf(),
        ensures
            final(self)@.wf(),
            match event {
                NlEvent::Reply(r) => final(self)@ == old(self)@.after_reply(opt_bytes(r)),
                NlEvent::Dumped(msgs) => old(self)@.after_dump(
                    match msgs {
                        Some(m) => Some(netlink::contents(m@)),
                        None => None,
                    },
                    final(self)@,
                ),
                NlEvent::Created(ok) => final(self)@ == if old(self)@.phase == NlPhase::Create {
                    old(self)@.to(
                        if ok {
                            NlPhase::TapIndex
                        } else {
                            NlPhase::Failed(SetupError::CreateTap)
                        },
                    )
                } else {
                    old(self)@
                },
                NlEvent::Slept => final(self)@ == old(self)@.after_pause(),
            },
            old(self)@.moves(event@, final(self)@),
    {
        match event {
            NlEvent::Reply(r) => self.on_reply(r),
            NlEvent::Dumped(m) => self.on_dump(m),
            NlEvent::Created(ok) => self.on_created(ok),
            NlEvent::Slept => self.on_pause(),
        }
    }
}

/// The links whose ingress queueing discipline is removed when a TAP device goes: all but the
/// loopback and the device itself.
pub open spec fn cleaned(links: Seq<Link>, tap: Seq<char>) -> Seq<int>
    decreases links.len(),
{
    if links.len() == 0 {
        Seq::empty()
    } else if links.last().name@ != "lo"@ && links.last().name@ != tap {
        cleaned(links.drop_last(), tap).push(links.last().index as int)
    } else {
        cleaned(links.drop_last(), tap)
    }
}

/// What follows a look for a network namespace. It is looked for a number of times, with a pause
/// between two looks. The looks count from zero.
pub fn wait_for_netns(look: u32, present: bool) -> (res: SocketWait)
    ensures
        res == if present {
            SocketWait::Ready
        } else if look + 1 < tap::NETNS_ATTEMPTS {
            SocketWait::Pause(tap::ATTEMPT_PAUSE_MS)
        } else {
            SocketWait::GiveUp
        },
        res == netns_wait(look as nat, present),
{
    if present {
        SocketWait::Ready
    } else if look < tap::NETNS_ATTEMPTS - 1 {
        SocketWait::Pause(tap::ATTEMPT_PAUSE_MS)
    } else {
        SocketWait::GiveUp
    }
}

/// The requests that clean up after a TAP device, but for deleting it: numbered from `seq` on,
/// and to be sent whatever each gives. The second part of the result is the number that the next
/// request gets.
#[verifier::spinoff_prover]
pub fn cleanup_requests(links: &Vec<Link>, tap: &str, seq: u32) -> (res: (Vec<Vec<u8>>, u32))
    ensures
        res.0@.len() == cleaned(links@, tap@).len(),
        res.1 == (seq + res.0@.len()) % 4294967296,
        forall|i: int|
            0 <= i < res.0@.len() ==> (#[trigger] res.0@[i])@ == netlink::message(
                37,
                5,
                (seq + i) % 4294967296,
                netlink::ingress(cleaned(links@, tap@)[i]),
            ),
{
    let mut out: Vec<Vec<u8>> = Vec::new();
    let mut next: u32 = seq;
    let mut i: usize = 0;
    assert(links@.take(0) =~= Seq::<Link>::empty());
    while i < links.len()
        invariant
            i <= links@.len(),
            out@.len() == cleaned(links@.take(i as int), tap@).len(),
            next == (seq + out@.len()) % 4294967296,
            forall|k: int|
                0 <= k < out@.len() ==> (#[trigger] out@[k])@ == netlink::message(
                    37,
                    5,
                    (seq + k) % 4294967296,
                    netlink::ingress(cleaned(links@.take(i as int), tap@)[k]),
                ),
        decreases links@.len() - i,
    {
        assert(links@.take(i + 1).drop_last() =~= links@.take(i as int));
        let l: &Link = &links[i];
        if !text::same(l.name.as_str(), "lo") && !text::same(l.name.as_str(), tap) {
            out.push(netlink::del_ingress_qdisc_request(l.index, next));
            next = next.wrapping_add(1);
        }
        i += 1;
    }
    assert(links@.take(links@.len() as int) =~= links@);
    (out, next)
}

/// What came of an action.
pub enum NlEventView {
    Reply(Option<Seq<u8>>),
    Dumped(Option<Seq<Seq<u8>>>),
    Created(bool),
    Slept,
}

impl View for NlEvent {
    type V = NlEventView;

    open spec fn view(&self) -> NlEventView {
        match *self {
            NlEvent::Reply(r) => NlEventView::Reply(opt_bytes(r)),
            NlEvent::Dumped(Some(m)) => NlEventView::Dumped(Some(netlink::contents(m@))),
            NlEvent::Dumped(None) => NlEventView::Dumped(None),
            NlEvent::Created(ok) => NlEventView::Created(ok),
            NlEvent::Slept => NlEventView::Slept,
        }
    }
}

impl NetlinkSetupView {
    /// Whether an event brings a setup from this state to `next`.
    pub open spec fn moves(self, event: NlEventView, next: NetlinkSetupView) -> bool {
        match event {
            NlEventView::Reply(r) => next == self.after_reply(r),
            NlEventView::Dumped(m) => self.after_dump(m, next),
            NlEventView::Created(ok) => next == if self.phase == NlPhase::Create {
                self.to(
                    if ok {
                        NlPhase::TapIndex
                    } else {
                        NlPhase::Failed(SetupError::CreateTap)
                    },
                )
            } else {
                self
            },
            NlEventView::Slept => next == self.after_pause(),
        }
    }
}

/// Whether a setup that starts in its first state goes through `states` as `events` come.
pub open spec fn is_run(states: Seq<NetlinkSetupView>, events: Seq<NlEventView>) -> bool {
    &&& states.len() == events.len() + 1
    &&& states[0].phase == NlPhase::FindStale
    &&& forall|i: int|
        0 <= i < events.len() ==> #[trigger] states[i].moves(events[i], states[i + 1])
}

/// Whether a reply carries no error: it is no error message, or one with the number zero.
pub open spec fn without_error(r: Seq<u8>) -> bool {
    r.len() < 20 || !(r[4] == 2 && r[5] == 0) || netlink::le32(r, 16) == 0
}

/// Whether a setup asks in a state for a filter that redirects what comes in on one interface to
/// another, and gets it.
pub open spec fn redirects(s: NetlinkSetupView, e: NlEventView, from: int, to: int) -> bool {
    &&& s.action() matches NlActionView::Request(m) && netlink::kind_in(m) == 44
        && netlink::interface_in(m) == from && netlink::target_in(m) == to
    &&& e matches NlEventView::Reply(Some(r)) && without_error(r)
}

/// Whether a setup asks in a state for the ingress queueing discipline of an interface, and it is
/// there then.
pub open spec fn opens_ingress(s: NetlinkSetupView, e: NlEventView, index: int) -> bool {
    &&& s.action() matches NlActionView::Request(m) && netlink::kind_in(m) == 36
        && netlink::interface_in(m) == index
    &&& e matches NlEventView::Reply(Some(r)) && (without_error(r) || netlink::le32(r, 16)
        == 0x1_0000_0000 - 17)
}

/// Whether a setup asks in a state for an interface to be brought up, and gets it.
pub open spec fn brings_up(s: NetlinkSetupView, e: NlEventView, index: int) -> bool {
    &&& s.action() matches NlActionView::Request(m) && netlink::kind_in(m) == 16
        && netlink::interface_in(m) == index && netlink::flags_in(m) == 1
    &&& e matches NlEventView::Reply(Some(r)) && without_error(r)
}

/// Whether one of the links is the interface that a setup has settled on: by its index and
/// hardware address, and neither the loopback nor the TAP device.
pub open spec fn settled(s: NetlinkSetupView) -> bool {
    exists|k: int|
        0 <= k < s.links.len() && (#[trigger] s.links[k]).index == s.veth_index && s.links[k].mac@
            == s.mac && s.links[k].name@ != "lo"@ && s.links[k].name@ != s.tap
            && s.links[k].name@.len() > 0
}

/// Whether a dump holds an address of an interface.
pub open spec fn shows_address(e: NlEventView, index: int, t: Seq<char>) -> bool {
    e matches NlEventView::Dumped(Some(m)) && exists|i: int|
        0 <= i < m.len() && #[trigger] netlink::has_address(m[i], index)
            && netlink::writes_address(m[i], t)
}

/// Whether a dump holds a gateway of a default route.
pub open spec fn shows_gateway(e: NlEventView, t: Seq<char>) -> bool {
    e matches NlEventView::Dumped(Some(m)) && exists|i: int|
        0 <= i < m.len() && #[trigger] netlink::has_gateway(m[i]) && netlink::writes_gateway(
            m[i],
            t,
        )
}

/// How many of the steps of a setup lie behind a phase.
pub open spec fn rank(p: NlPhase) -> int {
    match p {
        NlPhase::Links(_) | NlPhase::Addrs(_, _) | NlPhase::VethPause(_) => 1,
        NlPhase::Routes(_) | NlPhase::RoutePause(_) => 2,
        NlPhase::VethIngress => 3,
        NlPhase::VethRedirect => 4,
        NlPhase::TapIngress => 5,
        NlPhase::TapRedirect => 6,
        NlPhase::FlushList | NlPhase::FlushDelete(_) | NlPhase::Finished => 7,
        _ => 0,
    }
}

/// Whether packets from one interface were redirected to another at some time.
pub open spec fn ever_redirects(
    states: Seq<NetlinkSetupView>,
    events: Seq<NlEventView>,
    from: int,
    to: int,
) -> bool {
    exists|i: int|
        0 <= i < events.len() && #[trigger] redirects(states[i], events[i], from, to)
}

/// Whether an interface got its ingress queueing discipline at some time.
pub open spec fn ever_opens_ingress(
    states: Seq<NetlinkSetupView>,
    events: Seq<NlEventView>,
    index: int,
) -> bool {
    exists|i: int| 0 <= i < events.len() && #[trigger] opens_ingress(states[i], events[i], index)
}

/// Whether an interface was brought up at some time.
pub open spec fn ever_brings_up(
    states: Seq<NetlinkSetupView>,
    events: Seq<NlEventView>,
    index: int,
) -> bool {
    exists|i: int| 0 <= i < events.len() && #[trigger] brings_up(states[i], events[i], index)
}

/// Whether the kernel gave an address for an interface at some time.
pub open spec fn ever_shows_address(events: Seq<NlEventView>, index: int, t: Seq<char>) -> bool {
    exists|i: int| 0 <= i < events.len() && #[trigger] shows_address(events[i], index, t)
}

/// Whether the kernel gave a gateway at some time.
pub open spec fn ever_shows_gateway(events: Seq<NlEventView>, t: Seq<char>) -> bool {
    exists|i: int| 0 <= i < events.len() && #[trigger] shows_gateway(events[i], t)
}

/// What a setup has seen to by the phase it has come to.
pub open spec fn accomplished(
    states: Seq<NetlinkSetupView>,
    events: Seq<NlEventView>,
    s: NetlinkSetupView,
) -> bool {
    let veth = s.veth_index as int;
    let tap = s.tap_index as int;
    let r = rank(s.phase);
    &&& states.len() > 0 && s.tap == states[0].tap
    &&& s.phase matches NlPhase::Addrs(_, k) ==> k < s.links.len() && s.links[k as int].name@
        != "lo"@ && s.links[k as int].name@ != s.tap && s.links[k as int].name@.len() > 0
    &&& r >= 1 ==> ever_brings_up(states, events, tap)
    &&& r >= 2 ==> settled(s)
    &&& r >= 2 ==> ever_shows_address(events, veth, s.ip_cidr)
    &&& r >= 3 ==> ever_shows_gateway(events, s.gateway)
    &&& r >= 4 ==> ever_opens_ingress(states, events, veth)
    &&& r >= 5 ==> ever_redirects(states, events, veth, tap)
    &&& r >= 6 ==> ever_opens_ingress(states, events, tap)
    &&& r >= 7 ==> ever_redirects(states, events, tap, veth)
}

/// One event adds what its step sees to, and undoes nothing.
#[verifier::spinoff_prover]
proof fn lemma_accomplished(states: Seq<NetlinkSetupView>, events: Seq<NlEventView>)
    requires
        is_run(states, events),
        forall|i: int| 0 <= i < states.len() ==> (#[trigger] states[i]).links.len() <= usize::MAX,
    ensures
        accomplished(states, events, states.last()),
    decreases events.len(),
{
    if events.len() > 0 {
        let n = events.len() - 1;
        let old_states = states.drop_last();
        let old_events = events.drop_last();
        assert forall|i: int| 0 <= i < old_events.len() implies #[trigger] old_states[i].moves(
            old_events[i],
            old_states[i + 1],
        ) by {
            assert(states[i].moves(events[i], states[i + 1]));
        }
        assert forall|i: int| 0 <= i < old_states.len() implies (
        #[trigger] old_states[i]).links.len() <= usize::MAX by {
            assert(states[i].links.len() <= usize::MAX);
        }
        lemma_accomplished(old_states, old_events);
        let s = states[n];
        let t = states[n + 1];
        let e = events[n];
        assert(s.moves(e, t));
        assert(old_states.last() == s);
        assert(accomplished(old_states, old_events, s));
        assert(states.last() == t);
        assert(states[0] == old_states[0]);
        lemma_kept(old_states, old_events, states, events, s);
        match e {
            NlEventView::Reply(r) => lemma_reply_adds(states, events, n, r),
            NlEventView::Dumped(m) => lemma_dump_adds(states, events, n, m),
            _ => {
                assert(rank(t.phase) <= rank(s.phase));
                lemma_same(states, events, s, t);
            },
        }
    }
}

/// A state that has come no further and holds the same has seen to as much.
proof fn lemma_same(
    states: Seq<NetlinkSetupView>,
    events: Seq<NlEventView>,
    s: NetlinkSetupView,
    t: NetlinkSetupView,
)
    requires
        accomplished(states, events, s),
        t.phase is Addrs ==> t == s,
        rank(t.phase) <= rank(s.phase),
        rank(t.phase) >= 1 ==> t.tap_index == s.tap_index,
        rank(t.phase) >= 2 ==> t.links == s.links && t.veth_index == s.veth_index && t.mac == s.mac
            && t.ip_cidr == s.ip_cidr && t.gateway == s.gateway,
        t.tap == s.tap,
    ensures
        accomplished(states, events, t),
{
    assert(rank(t.phase) >= 2 ==> settled(s) == settled(t));
}

/// A reply adds what its request is for.
#[verifier::spinoff_prover]
proof fn lemma_reply_adds(
    states: Seq<NetlinkSetupView>,
    events: Seq<NlEventView>,
    n: int,
    reply: Option<Seq<u8>>,
)
    requires
        0 <= n < events.len(),
        states.len() == events.len() + 1,
        events[n] == NlEventView::Reply(reply),
        states[n + 1] == states[n].after_reply(reply),
        accomplished(states, events, states[n]),
    ensures
        accomplished(states, events, states[n + 1]),
{
    let s = states[n];
    let t = states[n + 1];
    let veth = s.veth_index as int;
    let tap = s.tap_index as int;
    lemma_requests(s);
    if let Some(r) = reply {
        netlink::law_only_errors_are_errors(r);
    }
    match s.phase {
        NlPhase::Up => {
            assert(rank(t.phase) >= 1 ==> brings_up(states[n], events[n], tap));
        },
        NlPhase::VethIngress => {
            assert(rank(t.phase) >= 4 ==> opens_ingress(states[n], events[n], veth));
        },
        NlPhase::VethRedirect => {
            assert(rank(t.phase) >= 5 ==> redirects(states[n], events[n], veth, tap));
        },
        NlPhase::TapIngress => {
            assert(rank(t.phase) >= 6 ==> opens_ingress(states[n], events[n], tap));
        },
        NlPhase::TapRedirect => {
            assert(rank(t.phase) >= 7 ==> redirects(states[n], events[n], tap, veth));
        },
        _ => {},
    }
    assert(rank(t.phase) >= 2 ==> t.links == s.links && t.veth_index == s.veth_index && t.mac
        == s.mac && t.ip_cidr == s.ip_cidr && t.gateway == s.gateway);
    assert(rank(t.phase) >= 2 ==> settled(s) == settled(t));
}

/// A dump adds what it is for.
#[verifier::spinoff_prover]
proof fn lemma_dump_adds(
    states: Seq<NetlinkSetupView>,
    events: Seq<NlEventView>,
    n: int,
    msgs: Option<Seq<Seq<u8>>>,
)
    requires
        0 <= n < events.len(),
        states.len() == events.len() + 1,
        events[n] == NlEventView::Dumped(msgs),
        states[n].after_dump(msgs, states[n + 1]),
        states[n + 1].links.len() <= usize::MAX,
        accomplished(states, events, states[n]),
    ensures
        accomplished(states, events, states[n + 1]),
{
    let s = states[n];
    let t = states[n + 1];
    match (s.phase, msgs) {
        (NlPhase::Links(_), Some(_)) => {
            netlink::law_next_candidate(t.links, t.tap, 0);
        },
        (NlPhase::Addrs(_, i), Some(m)) => {
            netlink::law_next_candidate(s.links, s.tap, i + 1);
            netlink::law_first_address(m, s.links[i as int].index as int);
            if rank(t.phase) >= 2 {
                assert(shows_address(events[n], t.veth_index as int, t.ip_cidr));
                assert(t.links[i as int].index == t.veth_index);
                assert(settled(t));
            }
        },
        (NlPhase::Routes(_), Some(m)) => {
            netlink::law_first_gateway(m);
            if rank(t.phase) >= 3 {
                assert(shows_gateway(events[n], t.gateway));
            }
            assert(settled(s) == settled(t));
        },
        _ => {
            assert(rank(t.phase) >= 2 ==> t.links == s.links && t.veth_index == s.veth_index
                && t.mac == s.mac && t.ip_cidr == s.ip_cidr && t.gateway == s.gateway);
            lemma_same(states, events, s, t);
        },
    }
}

/// What was seen to stays so when an event follows.
proof fn lemma_kept(
    old_states: Seq<NetlinkSetupView>,
    old_events: Seq<NlEventView>,
    states: Seq<NetlinkSetupView>,
    events: Seq<NlEventView>,
    s: NetlinkSetupView,
)
    requires
        old_events.len() <= events.len(),
        old_events.len() <= states.len(),
        0 < states.len(),
        states[0] == old_states[0],
        forall|i: int| 0 <= i < old_events.len() ==> #[trigger] events[i] == old_events[i],
        forall|i: int| 0 <= i < old_events.len() ==> #[trigger] states[i] == old_states[i],
        accomplished(old_states, old_events, s),
    ensures
        accomplished(states, events, s),
{
    let veth = s.veth_index as int;
    let tap = s.tap_index as int;
    let r = rank(s.phase);
    let n = old_events.len();
    if r >= 1 {
        let i = choose|i: int|
            0 <= i < n && #[trigger] brings_up(old_states[i], old_events[i], tap);
        assert(brings_up(states[i], events[i], tap));
    }
    if r >= 2 {
        let i = choose|i: int|
            0 <= i < n && #[trigger] shows_address(old_events[i], veth, s.ip_cidr);
        assert(shows_address(events[i], veth, s.ip_cidr));
    }
    if r >= 3 {
        let i = choose|i: int| 0 <= i < n && #[trigger] shows_gateway(old_events[i], s.gateway);
        assert(shows_gateway(events[i], s.gateway));
    }
    if r >= 4 {
        let i = choose|i: int|
            0 <= i < n && #[trigger] opens_ingress(old_states[i], old_events[i], veth);
        assert(opens_ingress(states[i], events[i], veth));
    }
    if r >= 5 {
        let i = choose|i: int|
            0 <= i < n && #[trigger] redirects(old_states[i], old_events[i], veth, tap);
        assert(redirects(states[i], events[i], veth, tap));
    }
    if r >= 6 {
        let i = choose|i: int|
            0 <= i < n && #[trigger] opens_ingress(old_states[i], old_events[i], tap);
        assert(opens_ingress(states[i], events[i], tap));
    }
    if r >= 7 {
        let i = choose|i: int|
            0 <= i < n && #[trigger] redirects(old_states[i], old_events[i], tap, veth);
        assert(redirects(states[i], events[i], tap, veth));
    }
}

/// What the requests of the steps say when they are read back.
#[verifier::spinoff_prover]
proof fn lemma_requests(s: NetlinkSetupView)
    ensures
        s.phase == NlPhase::Up ==> (s.action() matches NlActionView::Request(m) && netlink::kind_in(m) == 16 && netlink::interface_in(m) == s.tap_index && netlink::flags_in(m) == 1),
        s.phase == NlPhase::VethIngress ==> (s.action() matches NlActionView::Request(m)
            && netlink::kind_in(m) == 36 && netlink::interface_in(m) == s.veth_index),
        s.phase == NlPhase::TapIngress ==> (s.action() matches NlActionView::Request(m)
            && netlink::kind_in(m) == 36 && netlink::interface_in(m) == s.tap_index),
        s.phase == NlPhase::VethRedirect ==> (s.action() matches NlActionView::Request(m)
            && netlink::kind_in(m) == 44 && netlink::interface_in(m) == s.veth_index
            && netlink::target_in(m) == s.tap_index),
        s.phase == NlPhase::TapRedirect ==> (s.action() matches NlActionView::Request(m)
            && netlink::kind_in(m) == 44 && netlink::interface_in(m) == s.tap_index
            && netlink::target_in(m) == s.veth_index),
{
    match s.phase {
        NlPhase::Up => netlink::law_link_info_reads_back(16, s.tap_index, 1, 1, s.seq),
        NlPhase::VethIngress => netlink::law_ingress_reads_back(36, 0x605, s.veth_index, s.seq),
        NlPhase::TapIngress => netlink::law_ingress_reads_back(36, 0x605, s.tap_index, s.seq),
        NlPhase::VethRedirect => netlink::law_redirect_reads_back(
            s.veth_index,
            s.tap_index,
            s.seq,
        ),
        NlPhase::TapRedirect => netlink::law_redirect_reads_back(
            s.tap_index,
            s.veth_index,
            s.seq,
        ),
        _ => {},
    }
}

/// When a setup is finished, two filters are in place that are each other's mirror: what comes in on
/// the pod's interface goes to the TAP device, and what comes in on the TAP device goes to the
/// pod's interface. Each of the two has an ingress queueing discipline, and the TAP device is up.
/// What the setup reports is the device asked for, and the hardware address, IPv4 address and
/// gateway that the kernel gave for one interface of the pod.
pub proof fn law_finished_setup(states: Seq<NetlinkSetupView>, events: Seq<NlEventView>)
    requires
        is_run(states, events),
        forall|i: int| 0 <= i < states.len() ==> (#[trigger] states[i]).links.len() <= usize::MAX,
        states.last().phase == NlPhase::Finished,
    ensures
        ever_redirects(
            states,
            events,
            states.last().veth_index as int,
            states.last().tap_index as int,
        ),
        ever_redirects(
            states,
            events,
            states.last().tap_index as int,
            states.last().veth_index as int,
        ),
        ever_opens_ingress(states, events, states.last().veth_index as int),
        ever_opens_ingress(states, events, states.last().tap_index as int),
        ever_brings_up(states, events, states.last().tap_index as int),
        states.last().action() is Done,
        states.last().action()->tap_name == states[0].tap,
        exists|k: int|
            0 <= k < states.last().links.len() && (#[trigger] states.last().links[k]).index
                == states.last().veth_index && states.last().links[k].mac@
                == states.last().action()->mac && states.last().links[k].name@ != "lo"@
                && states.last().links[k].name@ != states[0].tap,
        ever_shows_address(
            events,
            states.last().veth_index as int,
            states.last().action()->ip_cidr,
        ),
        ever_shows_gateway(events, states.last().action()->gateway),
{
    lemma_accomplished(states, events);
    let s = states.last();
    let k = choose|k: int|
        0 <= k < s.links.len() && (#[trigger] s.links[k]).index == s.veth_index && s.links[k].mac@
            == s.mac && s.links[k].name@ != "lo"@ && s.links[k].name@ != s.tap
            && s.links[k].name@.len() > 0;
    assert(states.last().links[k].index == s.veth_index);
}

/// A refused filter fails the setup, and so does an ingress queueing discipline that is refused for
/// any reason but that it is there already. A request that gets no reply is refused.
pub proof fn law_refusal_fails_setup(s: NetlinkSetupView, reply: Option<Seq<u8>>)
    ensures
        (s.phase == NlPhase::VethRedirect || s.phase == NlPhase::TapRedirect) ==> ((
        s.after_reply(reply).phase is Failed) <==> !(reply is Some && without_error(
            reply->Some_0,
        ))),
        (s.phase == NlPhase::VethIngress || s.phase == NlPhase::TapIngress) ==> ((
        s.after_reply(reply).phase is Failed) <==> !(reply is Some && (without_error(reply->Some_0)
            || netlink::le32(reply->Some_0, 16) == 0x1_0000_0000 - 17))),
        s.phase == NlPhase::Up ==> ((s.after_reply(reply).phase is Failed) <==> !(reply is Some
            && without_error(reply->Some_0))),
{
    if let Some(r) = reply {
        netlink::law_only_errors_are_errors(r);
    }
}

/// Once the filters stand, every IPv4 address that the pod's interface has is asked to be deleted,
/// one by one, and no address of another interface.
pub proof fn law_addresses_are_removed(
    s: NetlinkSetupView,
    msgs: Seq<Seq<u8>>,
    t: NetlinkSetupView,
    k: int,
)
    requires
        s.phase == NlPhase::FlushList,
        s.moves(NlEventView::Dumped(Some(msgs)), t),
        t.deletions.len() <= usize::MAX,
        0 <= k < t.deletions.len(),
    ensures
        forall|i: int|
            0 <= i < msgs.len() && netlink::of_interface(#[trigger] msgs[i], s.veth_index as int)
                ==> exists|d: int|
                0 <= d < t.deletions.len() && (#[trigger] t.deletions[d]).skip(12)
                    == msgs[i].skip(12),
        t.to(NlPhase::FlushDelete(k as usize)).action() matches NlActionView::Request(d)
            && netlink::kind_in(d) == 21 && (exists|i: int|
            #![trigger msgs[i]]
            0 <= i < msgs.len() && netlink::of_interface(msgs[i], s.veth_index as int) && d.skip(12)
                == msgs[i].skip(12)),
{
    let seq = s.seq.wrapping_add(1);
    netlink::law_deletions(msgs, s.veth_index as int, seq);
    let all = netlink::deletions(msgs, s.veth_index as int, seq as int);
    assert(t.deletions == all);
    assert(netlink::is_deletion(
        msgs,
        all[k],
        s.veth_index as int,
        (seq + k) % 4294967296,
    ));
}

/// A device of the same name that is still there is deleted before a new one is created: the link
/// that the kernel names is the one that the next request deletes.
pub proof fn law_stale_device_is_deleted(s: NetlinkSetupView, r: Seq<u8>)
    requires
        s.phase == NlPhase::FindStale,
        r.len() >= 24,
        without_error(r),
    ensures
        ({
            let t = s.after_reply(Some(r));
            t.action() matches NlActionView::Request(m) && netlink::kind_in(m) == 17
                && netlink::interface_in(m) == netlink::le32(r, 20)
        }),
        forall|reply: Option<Seq<u8>>|
            (#[trigger] s.after_reply(Some(r)).after_reply(reply)).action() is CreateTap,
{
    netlink::law_only_errors_are_errors(r);
    netlink::law_link_info_reads_back(
        17,
        netlink::le32(r, 20) as u32,
        0,
        0,
        s.after_reply(Some(r)).seq,
    );
}

/// The index of the TAP device is the one that the kernel gives for the device's name.
pub proof fn law_tap_index_by_name(s: NetlinkSetupView, r: Seq<u8>)
    requires
        s.phase == NlPhase::TapIndex,
        text::bytes(s.tap).len() <= 65530,
    ensures
        s.action() matches NlActionView::Request(m) && netlink::kind_in(m) == 18
            && netlink::attributes(m, 32) == seq![(3int, text::bytes(s.tap).push(0))],
        without_error(r) && r.len() >= 24 ==> s.after_reply(Some(r)).tap_index == netlink::le32(
            r,
            20,
        ) && s.after_reply(Some(r)).phase == NlPhase::Up,
        !without_error(r) || r.len() < 24 ==> s.after_reply(Some(r)).phase is Failed,
        s.after_reply(None).phase is Failed,
{
    netlink::law_only_errors_are_errors(r);
    netlink::law_link_query_reads_back(s.tap, s.seq);
}

/// The pod's interface and its default route are looked for again after a tenth of a second, for
/// two seconds in all.
pub proof fn law_lookups_are_repeated(s: NetlinkSetupView, n: u32)
    requires
        s.phase == NlPhase::VethPause(n) || s.phase == NlPhase::RoutePause(n),
        n < 20,
    ensures
        s.action() == NlActionView::Sleep(100),
        (s.after_pause().phase is Failed) <==> n == 19,
        n < 19 && s.phase is VethPause ==> s.after_pause().phase == NlPhase::Links((n + 1) as u32),
        n < 19 && s.phase is RoutePause ==> s.after_pause().phase == NlPhase::Routes(
            (n + 1) as u32,
        ),
        s.after_pause().action() is Fail || s.after_pause().action() is Dump,
{
}

/// The interface request for a TAP device holds the name, cut to fifteen bytes and ended by a zero
/// byte, and asks for a TAP device without packet headers.
pub proof fn law_tap_request_reads_back(name: Seq<u8>)
    ensures
        tap_ifreq_spec(name).len() == 40,
        forall|i: int| 0 <= i < name.len() && i < 15 ==> #[trigger] tap_ifreq_spec(name)[i] == name[i],
        forall|i: int| name.len() <= i < 16 ==> #[trigger] tap_ifreq_spec(name)[i] == 0,
        tap_ifreq_spec(name)[15] == 0,
        netlink::le16(tap_ifreq_spec(name), 16) == 0x1000 + 2,
{
    let n = text::lesser(name.len() as int, 15);
    let head = name.take(n) + netlink::zeros(16 - n);
    assert(head.len() == 16);
    netlink::law_u16_round_trip(0x1002, head, netlink::zeros(22));
    assert(tap_ifreq_spec(name) == head + netlink::u16le(0x1002) + netlink::zeros(22));
}

/// When a TAP device goes, the ingress queueing discipline of every link but the loopback and the
/// device is asked to be removed, and of no other.
pub proof fn law_cleaned_links(links: Seq<Link>, tap: Seq<char>)
    ensures
        forall|i: int|
            0 <= i < links.len() && (#[trigger] links[i]).name@ != "lo"@ && links[i].name@ != tap
                ==> cleaned(links, tap).contains(links[i].index as int),
        forall|x: int|
            #[trigger] cleaned(links, tap).contains(x) ==> exists|i: int|
                0 <= i < links.len() && (#[trigger] links[i]).index == x && links[i].name@ != "lo"@
                    && links[i].name@ != tap,
        cleaned(links, tap).len() <= links.len(),
    decreases links.len(),
{
    if links.len() > 0 {
        let most = links.drop_last();
        law_cleaned_links(most, tap);
        let before = cleaned(most, tap);
        let all = cleaned(links, tap);
        assert forall|i: int|
            0 <= i < links.len() && (#[trigger] links[i]).name@ != "lo"@ && links[i].name@
                != tap implies all.contains(links[i].index as int) by {
            if i < most.len() {
                assert(most[i] == links[i]);
                assert(before.contains(links[i].index as int));
                let j = choose|j: int|
                    0 <= j < before.len() && before[j] == links[i].index as int;
                assert(all[j] == before[j]);
            } else {
                assert(all[all.len() - 1] == links[i].index as int);
            }
        }
        assert forall|x: int| #[trigger] all.contains(x) implies exists|i: int|
            0 <= i < links.len() && (#[trigger] links[i]).index == x && links[i].name@ != "lo"@
                && links[i].name@ != tap by {
            let j = choose|j: int| 0 <= j < all.len() && all[j] == x;
            if j < before.len() {
                assert(before[j] == x);
                assert(before.contains(x));
                let i = choose|i: int|
                    0 <= i < most.len() && (#[trigger] most[i]).index == x && most[i].name@ != "lo"@
                        && most[i].name@ != tap;
                assert(links[i] == most[i]);
            } else {
                assert(links[links.len() - 1].index == x);
            }
        }
    }
}

/// What follows a look for a network namespace.
pub open spec fn netns_wait(look: nat, present: bool) -> SocketWait {
    if present {
        SocketWait::Ready
    } else if look + 1 < tap::NETNS_ATTEMPTS {
        SocketWait::Pause(tap::ATTEMPT_PAUSE_MS)
    } else {
        SocketWait::GiveUp
    }
}

/// A namespace is looked for twenty times, with a tenth of a second between two looks, and taken as
/// soon as it is there.
pub proof fn law_netns_wait(look: nat)
    ensures
        netns_wait(look, true) == SocketWait::Ready,
        look < 19 ==> netns_wait(look, false) == SocketWait::Pause(100),
        look >= 19 ==> netns_wait(look, false) == SocketWait::GiveUp,
{
}

/// What is listed in a phase: the links of the namespace, its IPv4 addresses or its IPv4 routes.
#[verifier::spinoff_prover]
pub proof fn law_what_is_listed(s: NetlinkSetupView)
    ensures
        s.phase is Links ==> (s.action() matches NlActionView::Dump(m) && netlink::kind_in(m) == 18),
        s.phase is Addrs || s.phase == NlPhase::FlushList ==> (s.action() matches NlActionView::Dump(
            m,
        ) && netlink::kind_in(m) == 22 && m[16] == 2),
        s.phase is Routes ==> (s.action() matches NlActionView::Dump(m) && netlink::kind_in(m) == 26
            && m[16] == 2),
{
    match s.phase {
        NlPhase::Links(_) => netlink::law_dump_reads_back(18, s.seq, 16),
        NlPhase::Addrs(_, _) | NlPhase::FlushList => netlink::law_dump_reads_back(22, s.seq, 8),
        NlPhase::Routes(_) => netlink::law_dump_reads_back(26, s.seq, 12),
        _ => {},
    }
}

/// A setup goes on from step to step: what is found leads to the next step, and the filters are set
/// one after the other.
pub proof fn law_setup_goes_on(s: NetlinkSetupView, r: Seq<u8>, msgs: Seq<Seq<u8>>, n: u32, i: usize)
    requires
        without_error(r),
    ensures
        s.phase is DeleteStale ==> s.after_reply(Some(r)).phase == NlPhase::Create && s.after_reply(
            None,
        ).phase == NlPhase::Create,
        s.phase == NlPhase::Create ==> s.moves(
            NlEventView::Created(true),
            s.to(NlPhase::TapIndex),
        ) && s.moves(
            NlEventView::Created(false),
            s.to(NlPhase::Failed(SetupError::CreateTap)),
        ),
        s.phase == NlPhase::Up ==> s.after_reply(Some(r)).phase == NlPhase::Links(0),
        s.phase == NlPhase::Addrs(n, i) && i < s.links.len() && netlink::first_address(
            msgs,
            s.links[i as int].index as int,
        ) is Some ==> s.after_addresses(n, i as int, msgs).phase == NlPhase::Routes(0),
        s.phase == NlPhase::Routes(n) ==> s.after_routes(n, msgs).phase == if netlink::first_gateway(
            msgs,
        ) is Some {
            NlPhase::VethIngress
        } else {
            NlPhase::RoutePause(n)
        },
        s.phase == NlPhase::VethIngress ==> s.after_reply(Some(r)).phase == NlPhase::VethRedirect,
        s.phase == NlPhase::VethRedirect ==> s.after_reply(Some(r)).phase == NlPhase::TapIngress,
        s.phase == NlPhase::TapIngress ==> s.after_reply(Some(r)).phase == NlPhase::TapRedirect,
        s.phase == NlPhase::TapRedirect ==> s.after_reply(Some(r)).phase == NlPhase::FlushList,
{
    netlink::law_only_errors_are_errors(r);
}

/// The addresses are removed one after the other, until one is refused or none is left; then the
/// setup is finished. Where they cannot be listed, or there are none, it is finished too.
pub proof fn law_removal_ends(
    s: NetlinkSetupView,
    t: NetlinkSetupView,
    r: Seq<u8>,
    msgs: Seq<Seq<u8>>,
    i: usize,
)
    requires
        s.deletions.len() < usize::MAX,
    ensures
        s.phase == NlPhase::FlushDelete(i) && without_error(r) && i + 1 < s.deletions.len()
            ==> s.after_reply(Some(r)).phase == NlPhase::FlushDelete((i + 1) as usize),
        s.phase == NlPhase::FlushDelete(i) && i + 1 >= s.deletions.len() ==> s.after_reply(
            Some(r),
        ).phase == NlPhase::Finished,
        s.phase == NlPhase::FlushDelete(i) && !without_error(r) ==> s.after_reply(Some(r)).phase
            == NlPhase::Finished,
        s.phase == NlPhase::FlushDelete(i) ==> s.after_reply(None).phase == NlPhase::Finished
            && s.action() == NlActionView::Request(s.deletions[i as int]),
        s.phase == NlPhase::FlushList && s.moves(NlEventView::Dumped(None), t) ==> t.phase
            == NlPhase::Finished,
        s.phase == NlPhase::FlushList && s.moves(NlEventView::Dumped(Some(msgs)), t) ==> t.phase
            == if t.deletions.len() == 0 {
            NlPhase::Finished
        } else {
            NlPhase::FlushDelete(0)
        },
{
    netlink::law_only_errors_are_errors(r);
}

/// A setup that fails says at which step.
pub proof fn law_setup_errors(s: NetlinkSetupView, t: NetlinkSetupView, r: Option<Seq<u8>>)
    ensures
        s.phase == NlPhase::TapIndex && s.after_reply(r).phase is Failed ==> s.after_reply(r).phase
            == NlPhase::Failed(SetupError::TapIndex),
        s.phase == NlPhase::Up && s.after_reply(r).phase is Failed ==> s.after_reply(r).phase
            == NlPhase::Failed(SetupError::TapUp),
        (s.phase == NlPhase::VethIngress || s.phase == NlPhase::TapIngress) && s.after_reply(
            r,
        ).phase is Failed ==> s.after_reply(r).phase == NlPhase::Failed(SetupError::Ingress),
        (s.phase == NlPhase::VethRedirect || s.phase == NlPhase::TapRedirect) && s.after_reply(
            r,
        ).phase is Failed ==> s.after_reply(r).phase == NlPhase::Failed(SetupError::Redirect),
        (s.phase is Links || s.phase is Addrs) && s.moves(NlEventView::Dumped(None), t) ==> t.phase
            == NlPhase::Failed(SetupError::FindVeth),
        s.phase is Routes && s.moves(NlEventView::Dumped(None), t) ==> t.phase == NlPhase::Failed(
            SetupError::FindGateway,
        ),
        s.phase is VethPause && s.after_pause().phase is Failed ==> s.after_pause().phase
            == NlPhase::Failed(SetupError::FindVeth),
        s.phase is RoutePause && s.after_pause().phase is Failed ==> s.after_pause().phase
            == NlPhase::Failed(SetupError::FindGateway),
        s.phase matches NlPhase::Failed(e) ==> s.action() == NlActionView::Fail(e),
        s.phase is Failed || s.phase is Finished ==> s.after_reply(r) == s && s.after_pause() == s,
{
}

/// Every request has a number of its own: the next one is used as soon as a request is answered.
pub proof fn law_requests_are_numbered(s: NetlinkSetupView, r: Option<Seq<u8>>)
    requires
        s.action() is Request,
        s.seq < u32::MAX,
    ensures
        s.after_reply(r).seq == s.seq + 1,
{
}

} // verus!
