//! Route-netlink messages: building requests and reading replies.
//!
//! Numbers are little-endian, the byte order of the supported hosts (x86_64 and aarch64).

use crate::text;
use vstd::prelude::*;

verus! {

/// `n` in two bytes.
pub open spec fn u16le(n: int) -> Seq<u8> {
    seq![(n % 256) as u8, (n / 256 % 256) as u8]
}

/// `n` in four bytes.
pub open spec fn u32le(n: int) -> Seq<u8> {
    seq![
        (n % 256) as u8,
        (n / 256 % 256) as u8,
        (n / 65536 % 256) as u8,
        (n / 16777216 % 256) as u8,
    ]
}

/// `n` zero bytes.
pub open spec fn zeros(n: int) -> Seq<u8> {
    Seq::new(n as nat, |i: int| 0u8)
}

/// The number in the two bytes at `o`.
pub open spec fn le16(b: Seq<u8>, o: int) -> int {
    b[o] + b[o + 1] * 256
}

/// The number in the four bytes at `o`.
pub open spec fn le32(b: Seq<u8>, o: int) -> int {
    b[o] + b[o + 1] * 256 + b[o + 2] * 65536 + b[o + 3] * 16777216
}

/// The signed number in the four bytes at `o`.
pub open spec fn sle32(b: Seq<u8>, o: int) -> int {
    let n = le32(b, o);
    if n < 2147483648 {
        n
    } else {
        n - 4294967296
    }
}

/// `n` rounded up to a multiple of four.
pub open spec fn align4(n: int) -> int {
    (n + 3) / 4 * 4
}

/// The number in the two bytes at `o`.
pub fn u16_at(b: &[u8], o: usize) -> (res: u16)
    requires
        o + 2 <= b@.len(),
    ensures
        res == le16(b@, o as int),
{
    b[o] as u16 + b[o + 1] as u16 * 256
}

/// The number in the four bytes at `o`.
pub fn u32_at(b: &[u8], o: usize) -> (res: u32)
    requires
        o + 4 <= b@.len(),
    ensures
        res == le32(b@, o as int),
{
    b[o] as u32 + b[o + 1] as u32 * 256 + b[o + 2] as u32 * 65536 + b[o + 3] as u32 * 16777216
}

/// The signed number in the four bytes at `o`.
pub fn i32_at(b: &[u8], o: usize) -> (res: i32)
    requires
        o + 4 <= b@.len(),
    ensures
        res == sle32(b@, o as int),
{
    let n: u32 = u32_at(b, o);
    if n < 2147483648 {
        n as i32
    } else {
        (n as i64 - 4294967296) as i32
    }
}

/// Appends `n` in two bytes.
pub fn push_u16(buf: &mut Vec<u8>, n: u16)
    ensures
        final(buf)@ == old(buf)@ + u16le(n as int),
{
    buf.push((n % 256) as u8);
    buf.push((n / 256 % 256) as u8);
    assert(buf@ =~= old(buf)@ + u16le(n as int));
}

/// Appends `n` in four bytes.
pub fn push_u32(buf: &mut Vec<u8>, n: u32)
    ensures
        final(buf)@ == old(buf)@ + u32le(n as int),
{
    buf.push((n % 256) as u8);
    buf.push((n / 256 % 256) as u8);
    buf.push((n / 65536 % 256) as u8);
    buf.push((n / 16777216 % 256) as u8);
    assert(buf@ =~= old(buf)@ + u32le(n as int));
}

/// Appends `n` zero bytes.
pub fn push_zeros(buf: &mut Vec<u8>, n: usize)
    ensures
        final(buf)@ == old(buf)@ + zeros(n as int),
{
    let mut i: usize = 0;
    assert(buf@ =~= old(buf)@ + zeros(0));
    while i < n
        invariant
            i <= n,
            buf@ == old(buf)@ + zeros(i as int),
        decreases n - i,
    {
        buf.push(0);
        i += 1;
        assert(buf@ =~= old(buf)@ + zeros(i as int));
    }
}

/// Appends bytes.
pub fn push_bytes(buf: &mut Vec<u8>, b: &[u8])
    ensures
        final(buf)@ == old(buf)@ + b@,
{
    let mut i: usize = 0;
    assert(buf@ =~= old(buf)@ + b@.take(0));
    while i < b.len()
        invariant
            i <= b@.len(),
            buf@ == old(buf)@ + b@.take(i as int),
        decreases b@.len() - i,
    {
        buf.push(b[i]);
        i += 1;
        assert(buf@ =~= old(buf)@ + b@.take(i as int));
    }
    assert(b@.take(b@.len() as int) =~= b@);
}

/// Writing a number and reading it back gives the number.
pub proof fn law_u16_round_trip(n: u16, before: Seq<u8>, after: Seq<u8>)
    ensures
        le16(before + u16le(n as int) + after, before.len() as int) == n,
{
    let s = before + u16le(n as int) + after;
    assert(s[before.len() as int] == u16le(n as int)[0]);
    assert(s[before.len() as int + 1] == u16le(n as int)[1]);
}

/// Writing a number and reading it back gives the number.
pub proof fn law_u32_round_trip(n: u32, before: Seq<u8>, after: Seq<u8>)
    ensures
        le32(before + u32le(n as int) + after, before.len() as int) == n,
{
    let s = before + u32le(n as int) + after;
    assert(s[before.len() as int] == u32le(n as int)[0]);
    assert(s[before.len() as int + 1] == u32le(n as int)[1]);
    assert(s[before.len() as int + 2] == u32le(n as int)[2]);
    assert(s[before.len() as int + 3] == u32le(n as int)[3]);
}

/// Only the lowest 32 bits of a number are written.
#[verifier::spinoff_prover]
proof fn lemma_u32le_wraps(n: int)
    requires
        0 <= n,
    ensures
        u32le(n % 0x1_0000_0000) == u32le(n),
{
    let q = n / 0x1_0000_0000;
    let r = n % 0x1_0000_0000;
    assert(n == q * 0x1_0000_0000 + r);
    lemma_byte_wraps(q, r, 1, 0x1_0000_0000);
    lemma_byte_wraps(q, r, 256, 0x100_0000);
    lemma_byte_wraps(q, r, 65536, 0x1_0000);
    lemma_byte_wraps(q, r, 16777216, 0x100);
    assert(u32le(r) =~= u32le(n));
}

/// The byte of `q * d * e + r` at the weight `d` is that of `r`, where 256 divides `e`.
proof fn lemma_byte_wraps(q: int, r: int, d: int, e: int)
    requires
        0 <= q,
        0 <= r,
        d > 0,
        e == 0x1_0000_0000 || e == 0x100_0000 || e == 0x1_0000 || e == 0x100,
        d * e == 0x1_0000_0000,
    ensures
        (q * 0x1_0000_0000 + r) / d % 256 == r / d % 256,
{
    vstd::arithmetic::div_mod::lemma_fundamental_div_mod(r, d);
    vstd::arithmetic::div_mod::lemma_mod_bound(r, d);
    assert(q * 0x1_0000_0000 + r == (q * e + r / d) * d + r % d) by (nonlinear_arith)
        requires
            d * e == 0x1_0000_0000,
            r == d * (r / d) + r % d,
    ;
    vstd::arithmetic::div_mod::lemma_fundamental_div_mod_converse(
        q * 0x1_0000_0000 + r,
        d,
        q * e + r / d,
        r % d,
    );
    let k = e / 256;
    assert(q * e == 256 * (q * k)) by (nonlinear_arith)
        requires
            e == 256 * k,
    ;
    vstd::arithmetic::div_mod::lemma_mod_multiples_vanish(q * k, r / d, 256);
}

/// The first twelve bytes of a message header: length, type, flags and sequence number.
pub open spec fn header(len: int, ty: int, flags: int, seq: int) -> Seq<u8> {
    u32le(len) + u16le(ty) + u16le(flags) + u32le(seq)
}

/// A message: its header, the kernel as its destination, and what it carries.
pub open spec fn message(ty: int, flags: int, seq: int, payload: Seq<u8>) -> Seq<u8> {
    header((16 + payload.len()) as int, ty, flags, seq) + zeros(4) + payload
}

/// Writes length, type, flags and sequence number over the start of a message.
pub fn nlhdr(buf: &mut Vec<u8>, len: u32, ty: u16, flags: u16, seq: u32)
    requires
        old(buf)@.len() >= 12,
    ensures
        final(buf)@ == header(len as int, ty as int, flags as int, seq as int) + old(buf)@.skip(12),
{
    let mut head: Vec<u8> = Vec::new();
    push_u32(&mut head, len);
    push_u16(&mut head, ty);
    push_u16(&mut head, flags);
    push_u32(&mut head, seq);
    let ghost h = header(len as int, ty as int, flags as int, seq as int);
    assert(head@ =~= h);
    assert(h.len() == 12);
    let ghost before = buf@;
    let mut i: usize = 0;
    assert(buf@ =~= h.take(0) + before.skip(0));
    while i < 12
        invariant
            i <= 12,
            h.len() == 12,
            head@ == h,
            before.len() >= 12,
            buf@.len() == before.len(),
            buf@ == h.take(i as int) + before.skip(i as int),
        decreases 12 - i,
    {
        buf.set(i, head[i]);
        i += 1;
        assert(buf@ =~= h.take(i as int) + before.skip(i as int));
    }
    assert(h.take(12) =~= h);
}

/// Puts header and payload together.
fn finish(ty: u16, flags: u16, seq: u32, payload: &Vec<u8>) -> (res: Vec<u8>)
    requires
        payload@.len() + 16 <= u32::MAX,
    ensures
        res@ == message(ty as int, flags as int, seq as int, payload@),
{
    let mut buf: Vec<u8> = Vec::new();
    push_zeros(&mut buf, 16);
    push_bytes(&mut buf, payload.as_slice());
    let len: u32 = 16 + payload.len() as u32;
    nlhdr(&mut buf, len, ty, flags, seq);
    assert(buf@ =~= message(ty as int, flags as int, seq as int, payload@));
    buf
}

/// An attribute that is nested, or needs no padding.
pub open spec fn nested(ty: int, data: Seq<u8>) -> Seq<u8> {
    u16le((4 + data.len()) as int) + u16le(ty) + data
}

/// An attribute: length, type, data, and zeros up to a multiple of four bytes.
pub open spec fn attribute(ty: int, data: Seq<u8>) -> Seq<u8> {
    nested(ty, data) + zeros(align4(data.len() as int) - data.len())
}

/// An attribute with a text, which ends in a zero byte.
pub open spec fn text_attribute(ty: int, s: Seq<char>) -> Seq<u8> {
    attribute(ty, text::bytes(s).push(0))
}

/// Appends an attribute's length and type.
pub fn put_nla(buf: &mut Vec<u8>, ty: u16, payload_len: u16)
    requires
        payload_len <= 65531,
    ensures
        final(buf)@ == old(buf)@ + u16le(4 + payload_len) + u16le(ty as int),
{
    push_u16(buf, 4 + payload_len);
    push_u16(buf, ty);
}

/// How many zero bytes bring a length to a multiple of four.
pub open spec fn padding(len: int) -> int {
    align4(len) - len
}

/// Appends an attribute with a text, and zeros until the buffer's length is a multiple of four.
pub fn push_nla_str(buf: &mut Vec<u8>, ty: u16, s: &str)
    requires
        text::bytes(s@).len() <= 65530,
    ensures
        final(buf)@ == old(buf)@ + nested(ty as int, text::bytes(s@).push(0)) + zeros(
            padding((old(buf)@.len() + 5 + text::bytes(s@).len()) as int),
        ),
        old(buf)@.len() % 4 == 0 ==> final(buf)@ == old(buf)@ + text_attribute(ty as int, s@),
        final(buf)@.len() % 4 == 0,
{
    let p: &[u8] = s.as_bytes();
    let ghost data = text::bytes(s@).push(0);
    let ghost start = buf@;
    put_nla(buf, ty, (p.len() + 1) as u16);
    push_bytes(buf, p);
    buf.push(0);
    let ghost body = start + nested(ty as int, data);
    assert(buf@ =~= body);
    let mut k: usize = 0;
    assert(buf@ =~= body + zeros(0));
    while buf.len() % 4 != 0
        invariant
            buf@ == body + zeros(k as int),
            k <= padding(body.len() as int),
        decreases padding(body.len() as int) - k,
    {
        buf.push(0);
        k += 1;
        assert(buf@ =~= body + zeros(k as int));
    }
    assert(k == padding(body.len() as int));
    assert(start.len() % 4 == 0 ==> buf@ =~= start + text_attribute(ty as int, s@));
}

/// Writes the length and type of the attribute that starts at `start` and reaches to the end.
fn set_nla(buf: &mut Vec<u8>, start: usize, ty: u16)
    requires
        start + 4 <= old(buf)@.len(),
        old(buf)@.len() - start <= 65535,
    ensures
        final(buf)@ == old(buf)@.take(start as int) + nested(
            ty as int,
            old(buf)@.skip(start + 4),
        ),
{
    let len: usize = buf.len() - start;
    buf.set(start, (len % 256) as u8);
    buf.set(start + 1, (len / 256 % 256) as u8);
    buf.set(start + 2, (ty % 256) as u8);
    buf.set(start + 3, (ty / 256 % 256) as u8);
    assert(buf@ =~= old(buf)@.take(start as int) + nested(ty as int, old(buf)@.skip(start + 4)));
}

/// Closes the nested attribute that starts at `start`, with the flag that says it is nested.
pub fn close_nested(buf: &mut Vec<u8>, start: usize, ty: u16)
    requires
        start + 4 <= old(buf)@.len(),
        old(buf)@.len() - start <= 65535,
        ty < 32768,
    ensures
        final(buf)@ == old(buf)@.take(start as int) + nested(
            ty + 32768,
            old(buf)@.skip(start + 4),
        ),
{
    set_nla(buf, start, ty + 32768);
}

/// The request for the link with a name.
pub open spec fn link_query(name: Seq<char>, seq: int) -> Seq<u8> {
    message(18, 5, seq, zeros(16) + text_attribute(3, name))
}

/// Asks for the link with a name.
pub fn get_link_request(name: &str, seq: u32) -> (res: Vec<u8>)
    requires
        text::bytes(name@).len() <= 65530,
    ensures
        res@ == link_query(name@, seq as int),
{
    let mut p: Vec<u8> = Vec::new();
    push_zeros(&mut p, 16);
    push_nla_str(&mut p, 3, name);
    assert(p@ =~= zeros(16) + text_attribute(3, name@));
    finish(18, 5, seq, &p)
}

/// A link message: family and type unspecified, index, flags and change mask.
pub open spec fn link_info(index: int, flags: int, change: int) -> Seq<u8> {
    zeros(4) + u32le(index) + u32le(flags) + u32le(change)
}

fn link_message(ty: u16, index: u32, flags: u32, seq: u32) -> (res: Vec<u8>)
    ensures
        res@ == message(ty as int, 5, seq as int, link_info(index as int, flags as int, flags as int)),
{
    let mut p: Vec<u8> = Vec::new();
    push_zeros(&mut p, 4);
    push_u32(&mut p, index);
    push_u32(&mut p, flags);
    push_u32(&mut p, flags);
    assert(p@ =~= link_info(index as int, flags as int, flags as int));
    finish(ty, 5, seq, &p)
}

/// Brings a link up: the flag `IFF_UP` is set, and no other flag changes.
pub fn set_link_up_request(index: u32, seq: u32) -> (res: Vec<u8>)
    ensures
        res@ == message(16, 5, seq as int, link_info(index as int, 1, 1)),
{
    link_message(16, index, 1, seq)
}

/// Deletes a link.
pub fn del_link_request(index: u32, seq: u32) -> (res: Vec<u8>)
    ensures
        res@ == message(17, 5, seq as int, link_info(index as int, 0, 0)),
{
    link_message(17, index, 0, seq)
}

/// Asks for all links.
pub fn dump_links_request(seq: u32) -> (res: Vec<u8>)
    ensures
        res@ == message(18, 0x301, seq as int, zeros(16)),
{
    let mut p: Vec<u8> = Vec::new();
    push_zeros(&mut p, 16);
    assert(p@ =~= zeros(16));
    finish(18, 0x301, seq, &p)
}

/// The address family of IPv4.
pub const AF_INET: u8 = 2;

fn dump_inet(ty: u16, size: usize, seq: u32) -> (res: Vec<u8>)
    requires
        1 <= size <= 64,
    ensures
        res@ == message(ty as int, 0x301, seq as int, seq![AF_INET] + zeros(size - 1)),
{
    let mut p: Vec<u8> = Vec::new();
    p.push(AF_INET);
    push_zeros(&mut p, size - 1);
    assert(p@ =~= seq![AF_INET] + zeros(size - 1));
    finish(ty, 0x301, seq, &p)
}

/// Asks for all IPv4 addresses.
pub fn dump_addresses_request(seq: u32) -> (res: Vec<u8>)
    ensures
        res@ == message(22, 0x301, seq as int, seq![AF_INET] + zeros(7)),
{
    dump_inet(22, 8, seq)
}

/// Asks for all IPv4 routes.
pub fn dump_routes_request(seq: u32) -> (res: Vec<u8>)
    ensures
        res@ == message(26, 0x301, seq as int, seq![AF_INET] + zeros(11)),
{
    dump_inet(26, 12, seq)
}

/// A traffic-control message: interface, handle, parent and info.
pub open spec fn traffic(index: int, handle: int, parent: int, info: int) -> Seq<u8> {
    zeros(4) + u32le(index) + u32le(handle) + u32le(parent) + u32le(info)
}

fn push_traffic(p: &mut Vec<u8>, index: u32, handle: u32, parent: u32, info: u32)
    ensures
        final(p)@ == old(p)@ + traffic(index as int, handle as int, parent as int, info as int),
{
    push_zeros(p, 4);
    push_u32(p, index);
    push_u32(p, handle);
    push_u32(p, parent);
    push_u32(p, info);
    assert(p@ =~= old(p)@ + traffic(index as int, handle as int, parent as int, info as int));
}

/// The ingress queueing discipline of an interface.
pub open spec fn ingress(index: int) -> Seq<u8> {
    traffic(index, 0xFFFF0000, 0xFFFFFFF1, 0) + text_attribute(1, "ingress"@)
}

proof fn lemma_ascii_len(s: &str)
    requires
        s.is_ascii(),
    ensures
        text::bytes(s@).len() == s@.len(),
{
    vstd::string::is_ascii_spec_bytes(s);
}

fn ingress_message(ty: u16, flags: u16, index: u32, seq: u32) -> (res: Vec<u8>)
    ensures
        res@ == message(ty as int, flags as int, seq as int, ingress(index as int)),
{
    let mut p: Vec<u8> = Vec::new();
    push_traffic(&mut p, index, 0xFFFF0000, 0xFFFFFFF1, 0);
    proof {
        reveal_strlit("ingress");
        lemma_ascii_len("ingress");
    }
    push_nla_str(&mut p, 1, "ingress");
    assert(p@ =~= ingress(index as int));
    finish(ty, flags, seq, &p)
}

/// Adds the ingress queueing discipline to an interface.
pub fn add_ingress_qdisc_request(index: u32, seq: u32) -> (res: Vec<u8>)
    ensures
        res@ == message(36, 0x605, seq as int, ingress(index as int)),
{
    ingress_message(36, 0x605, index, seq)
}

/// Removes the ingress queueing discipline from an interface.
pub fn del_ingress_qdisc_request(index: u32, seq: u32) -> (res: Vec<u8>)
    ensures
        res@ == message(37, 5, seq as int, ingress(index as int)),
{
    ingress_message(37, 5, index, seq)
}

/// The parameters of a redirecting action: packets are stolen and sent out of the interface.
pub open spec fn redirect_parameters(dst: int) -> Seq<u8> {
    u32le(0) + u32le(0) + u32le(4) + u32le(0) + u32le(0) + u32le(1) + u32le(dst)
}

/// The action list of a redirecting filter: one action, which redirects to an interface.
pub open spec fn redirect_actions(dst: int) -> Seq<u8> {
    nested(7, nested(1, text_attribute(1, "mirred"@) + nested(
        32770,
        nested(2, redirect_parameters(dst)),
    )))
}

/// A selector with one key that matches every packet.
pub open spec fn match_all() -> Seq<u8> {
    nested(5, seq![1u8, 0, 1] + zeros(29))
}

/// The filter that redirects all packets that come in on `src` to `dst`. The kernel wants the
/// actions before the selector.
pub open spec fn redirect(src: int, dst: int) -> Seq<u8> {
    traffic(src, 0, 0xFFFF0000, 0x0300) + text_attribute(1, "u32"@) + nested(
        2,
        redirect_actions(dst) + match_all(),
    )
}

/// Redirects all packets that come in on `src` to `dst`.
#[verifier::spinoff_prover]
#[verifier::rlimit(60)]
pub fn add_redirect_filter_request(src: u32, dst: u32, seq: u32) -> (res: Vec<u8>)
    ensures
        res@ == message(44, 0x605, seq as int, redirect(src as int, dst as int)),
{
    let mut b: Vec<u8> = Vec::new();
    push_traffic(&mut b, src, 0, 0xFFFF0000, 0x0300);
    proof {
        reveal_strlit("u32");
        reveal_strlit("mirred");
        lemma_ascii_len("u32");
        lemma_ascii_len("mirred");
    }
    push_nla_str(&mut b, 1, "u32");
    let opts: usize = b.len();
    let ghost before_opts = b@;
    push_zeros(&mut b, 4);
    let act: usize = b.len();
    let ghost before_act = b@;
    push_zeros(&mut b, 4);
    let tab: usize = b.len();
    let ghost before_tab = b@;
    push_zeros(&mut b, 4);
    push_nla_str(&mut b, 1, "mirred");
    let ao: usize = b.len();
    let ghost before_ao = b@;
    push_zeros(&mut b, 4);
    let ghost before_parms = b@;
    put_nla(&mut b, 2, 28);
    push_u32(&mut b, 0);
    push_u32(&mut b, 0);
    push_u32(&mut b, 4);
    push_u32(&mut b, 0);
    push_u32(&mut b, 0);
    push_u32(&mut b, 1);
    push_u32(&mut b, dst);
    let ghost parms = nested(2, redirect_parameters(dst as int));
    assert(b@ =~= before_parms + parms);
    assert(b@.take(ao as int) =~= before_ao);
    assert(b@.skip(ao + 4) =~= parms);
    close_nested(&mut b, ao, 2);
    let ghost tab_data = text_attribute(1, "mirred"@) + nested(32770, parms);
    assert(b@.take(tab as int) =~= before_tab);
    assert(b@.skip(tab + 4) =~= tab_data);
    set_nla(&mut b, tab, 1);
    assert(b@.take(act as int) =~= before_act);
    assert(b@.skip(act + 4) =~= nested(1, tab_data));
    set_nla(&mut b, act, 7);
    let ghost actions = redirect_actions(dst as int);
    assert(b@ =~= before_act + actions);
    let sel: usize = b.len();
    let ghost before_sel = b@;
    push_zeros(&mut b, 4);
    b.push(1);
    b.push(0);
    b.push(1);
    push_zeros(&mut b, 29);
    assert(b@.take(sel as int) =~= before_sel);
    assert(b@.skip(sel + 4) =~= seq![1u8, 0, 1] + zeros(29));
    set_nla(&mut b, sel, 5);
    assert(b@ =~= before_sel + match_all());
    assert(b@.take(opts as int) =~= before_opts);
    assert(b@.skip(opts + 4) =~= actions + match_all());
    set_nla(&mut b, opts, 2);
    assert(b@ =~= redirect(src as int, dst as int));
    finish(44, 0x605, seq, &b)
}

/// The error number that an error message carries: the kernel sends it negated.
pub open spec fn errno_at(r: Seq<u8>, o: int) -> int {
    if sle32(r, o) == i32::MIN {
        i32::MIN as int
    } else {
        -sle32(r, o)
    }
}

fn errno_of(r: &[u8], o: usize) -> (res: i32)
    requires
        o + 4 <= r@.len(),
    ensures
        res == errno_at(r@, o as int),
        res == 0 <==> sle32(r@, o as int) == 0,
{
    let e: i32 = i32_at(r, o);
    if e == i32::MIN {
        e
    } else {
        -e
    }
}

/// The byte at `i`, zero behind the end of the buffer.
pub open spec fn byte_or_zero(r: Seq<u8>, i: int) -> u8 {
    if 0 <= i < r.len() {
        r[i]
    } else {
        0
    }
}

/// The four bytes at `o`, zeros behind the end of the buffer.
pub open spec fn padded4(r: Seq<u8>, o: int) -> Seq<u8> {
    seq![
        byte_or_zero(r, o),
        byte_or_zero(r, o + 1),
        byte_or_zero(r, o + 2),
        byte_or_zero(r, o + 3),
    ]
}

fn byte_at(r: &[u8], o: usize, i: usize) -> (res: u8)
    requires
        o <= r@.len(),
    ensures
        res == byte_or_zero(r@, o + i),
{
    if i < r.len() - o {
        r[o + i]
    } else {
        0
    }
}

/// The error number that starts at `o`, of which the buffer may hold only a part.
fn padded_errno(r: &[u8], o: usize) -> (res: i32)
    requires
        o <= r@.len(),
    ensures
        res == errno_at(padded4(r@, o as int), 0),
        res == 0 <==> sle32(padded4(r@, o as int), 0) == 0,
{
    let b: [u8; 4] = [byte_at(r, o, 0), byte_at(r, o, 1), byte_at(r, o, 2), byte_at(r, o, 3)];
    assert(b@ =~= padded4(r@, o as int));
    errno_of(b.as_slice(), 0)
}

/// The error number in a reply; zero where it reports none.
pub open spec fn reply_error(r: Seq<u8>) -> int {
    if r.len() >= 20 && le16(r, 4) == 2 {
        errno_at(r, 16)
    } else {
        0
    }
}

/// Reads the reply to a request: an error message with a number other than zero is an error.
pub fn read_ack(r: &[u8]) -> (res: Result<(), i32>)
    ensures
        match res {
            Ok(()) => reply_error(r@) == 0,
            Err(e) => e == reply_error(r@) && e != 0,
        },
{
    if r.len() >= 20 && u16_at(r, 4) == 2 {
        let e: i32 = errno_of(r, 16);
        if e != 0 {
            return Err(e);
        }
    }
    Ok(())
}

/// Why a link has no index.
#[derive(Debug, Clone, Copy, PartialEq, Eq, Structural)]
pub enum LinkError {
    /// The kernel reported this error number.
    Errno(i32),
    /// The reply is too short to describe a link.
    NotFound,
}

/// Reads the reply to a request for a link: the link's index.
pub fn read_link_index(r: &[u8]) -> (res: Result<u32, LinkError>)
    ensures
        match res {
            Ok(index) => reply_error(r@) == 0 && r@.len() >= 24 && index == le32(r@, 20),
            Err(LinkError::Errno(e)) => e == reply_error(r@) && e != 0,
            Err(LinkError::NotFound) => reply_error(r@) == 0 && r@.len() < 24,
        },
{
    match read_ack(r) {
        Err(e) => Err(LinkError::Errno(e)),
        Ok(()) => if r.len() < 24 {
            Err(LinkError::NotFound)
        } else {
            Ok(u32_at(r, 20))
        },
    }
}

/// Copies the bytes from `from` up to `to`.
pub fn copy_range(b: &[u8], from: usize, to: usize) -> (res: Vec<u8>)
    requires
        from <= to <= b@.len(),
    ensures
        res@ == b@.subrange(from as int, to as int),
{
    let mut out: Vec<u8> = Vec::new();
    let mut i: usize = from;
    while i < to
        invariant
            from <= i <= to <= b@.len(),
            out@ =~= b@.subrange(from as int, i as int),
        decreases to - i,
    {
        out.push(b[i]);
        i += 1;
    }
    out
}

/// The number of bytes from `off` on.
pub open spec fn left(r: Seq<u8>, off: int) -> nat {
    if off <= r.len() {
        (r.len() - off) as nat
    } else {
        0
    }
}

/// How one received buffer of a dump ends.
#[derive(Debug, Clone, Copy, PartialEq, Eq, Structural)]
pub enum DumpEnd {
    /// The dump is complete.
    Done,
    /// More buffers follow.
    More,
    /// The kernel reported this error number.
    Failed(i32),
    /// A message claims to have no length at all.
    Malformed,
}

/// The messages in a buffer from `off` on, and how the buffer ends: at a completion message, at
/// an error, or where no further header fits. A message that reaches past the buffer is left out;
/// an error number that does counts with zeros for what is missing.
pub open spec fn scanned(r: Seq<u8>, off: int) -> (Seq<Seq<u8>>, DumpEnd)
    decreases left(r, off),
{
    if off < 0 || off + 16 > r.len() {
        (Seq::empty(), DumpEnd::More)
    } else {
        let len = le32(r, off);
        let ty = le16(r, off + 4);
        if ty == 3 {
            (Seq::empty(), DumpEnd::Done)
        } else if ty == 2 && sle32(padded4(r, off + 16), 0) != 0 {
            (Seq::empty(), DumpEnd::Failed(errno_at(padded4(r, off + 16), 0) as i32))
        } else if len == 0 {
            (Seq::empty(), DumpEnd::Malformed)
        } else {
            let rest = scanned(r, off + align4(len));
            if off + len <= r.len() {
                (seq![r.subrange(off, off + len)] + rest.0, rest.1)
            } else {
                rest
            }
        }
    }
}

/// The contents of a list of messages.
pub open spec fn contents(v: Seq<Vec<u8>>) -> Seq<Seq<u8>> {
    Seq::new(v.len(), |i: int| v[i]@)
}

/// Adds the messages of one received buffer to those of a dump.
pub fn scan_dump(r: &[u8], out: &mut Vec<Vec<u8>>) -> (res: DumpEnd)
    ensures
        contents(final(out)@) == contents(old(out)@) + scanned(r@, 0).0,
        res == scanned(r@, 0).1,
{
    let mut off: usize = 0;
    assert(contents(out@) + scanned(r@, 0).0 =~= contents(old(out)@) + scanned(r@, 0).0);
    while r.len() - off >= 16
        invariant
            off <= r@.len(),
            contents(out@) + scanned(r@, off as int).0 == contents(old(out)@) + scanned(r@, 0).0,
            scanned(r@, off as int).1 == scanned(r@, 0).1,
        decreases r@.len() - off,
    {
        let len: u32 = u32_at(r, off);
        let ty: u16 = u16_at(r, off + 4);
        if ty == 3 {
            assert(contents(out@) =~= contents(out@) + scanned(r@, off as int).0);
            return DumpEnd::Done;
        }
        if ty == 2 {
            let e: i32 = padded_errno(r, off + 16);
            if e != 0 {
                assert(contents(out@) =~= contents(out@) + scanned(r@, off as int).0);
                return DumpEnd::Failed(e);
            }
        }
        if len == 0 {
            assert(contents(out@) =~= contents(out@) + scanned(r@, off as int).0);
            return DumpEnd::Malformed;
        }
        let ghost next = off + align4(len as int);
        if len as usize <= r.len() - off {
            let ghost was = out@;
            let m: Vec<u8> = copy_range(r, off, off + len as usize);
            let ghost mv = m@;
            out.push(m);
            proof {
                assert(contents(out@) =~= contents(was).push(mv));
                assert(contents(out@) + scanned(r@, next).0 =~= contents(was) + (seq![mv]
                    + scanned(r@, next).0));
            }
            let step: u64 = (len as u64 + 3) / 4 * 4;
            if step < (r.len() - off) as u64 {
                off = off + step as usize;
            } else {
                off = r.len();
            }
        } else {
            proof {
                assert(scanned(r@, next) == (Seq::<Seq<u8>>::empty(), DumpEnd::More));
            }
            return DumpEnd::More;
        }
    }
    assert(contents(out@) =~= contents(out@) + scanned(r@, off as int).0);
    DumpEnd::More
}

/// The attributes in `d` from `off` on: type and data of each, up to the first that is cut short.
pub open spec fn attributes(d: Seq<u8>, off: int) -> Seq<(int, Seq<u8>)>
    decreases left(d, off),
{
    if off < 0 || off + 4 > d.len() {
        Seq::empty()
    } else {
        let len = le16(d, off);
        if len < 4 || off + len > d.len() {
            Seq::empty()
        } else {
            seq![(le16(d, off + 2), d.subrange(off + 4, off + len))] + attributes(
                d,
                off + align4(len),
            )
        }
    }
}

/// An attribute's type and data.
#[derive(Debug)]
pub struct Attribute {
    pub ty: u16,
    pub data: Vec<u8>,
}

/// Type and data of each attribute in a list.
pub open spec fn attribute_contents(v: Seq<Attribute>) -> Seq<(int, Seq<u8>)> {
    Seq::new(v.len(), |i: int| (v[i].ty as int, v[i].data@))
}

/// Takes attributes apart, from `start` on.
pub fn read_attributes(d: &[u8], start: usize) -> (res: Vec<Attribute>)
    requires
        start <= d@.len(),
    ensures
        attribute_contents(res@) == attributes(d@, start as int),
{
    let mut out: Vec<Attribute> = Vec::new();
    let mut off: usize = start;
    assert(attribute_contents(out@) + attributes(d@, off as int) =~= attributes(d@, start as int));
    while d.len() - off >= 4
        invariant
            off <= d@.len(),
            attribute_contents(out@) + attributes(d@, off as int) == attributes(d@, start as int),
        decreases d@.len() - off,
    {
        let len: usize = u16_at(d, off) as usize;
        let ty: u16 = u16_at(d, off + 2);
        if len < 4 || len > d.len() - off {
            assert(attribute_contents(out@) =~= attribute_contents(out@) + attributes(
                d@,
                off as int,
            ));
            return out;
        }
        let ghost was = out@;
        let data: Vec<u8> = copy_range(d, off + 4, off + len);
        let ghost item = (ty as int, data@);
        out.push(Attribute { ty, data });
        let ghost next = off + align4(len as int);
        proof {
            assert(attribute_contents(out@) =~= attribute_contents(was).push(item));
            assert(attribute_contents(out@) + attributes(d@, next) =~= attribute_contents(was) + (
            seq![item] + attributes(d@, next)));
        }
        let step: usize = (len + 3) / 4 * 4;
        if step < d.len() - off {
            off = off + step;
        } else {
            off = d.len();
        }
    }
    assert(attribute_contents(out@) =~= attribute_contents(out@) + attributes(d@, off as int));
    out
}

/// `s` without the zero characters at its end.
pub open spec fn without_zeros(s: Seq<char>) -> Seq<char>
    decreases s.len(),
{
    if s.len() > 0 && s.last() == '\0' {
        without_zeros(s.drop_last())
    } else {
        s
    }
}

fn trim_zeros(s: &str) -> (res: String)
    ensures
        res@ == without_zeros(s@),
{
    let x: Vec<char> = text::to_chars(s);
    let mut n: usize = x.len();
    assert(x@.take(n as int) =~= s@);
    while n > 0 && x[n - 1] == '\0'
        invariant
            n <= x@.len(),
            without_zeros(x@.take(n as int)) == without_zeros(s@),
        decreases n,
    {
        assert(x@.take(n as int).drop_last() =~= x@.take(n - 1));
        n -= 1;
    }
    let ghost cut = x@.take(n as int);
    let res: String = text::from_chars(&x, 0, n);
    assert(res@ =~= cut);
    res
}

/// Bytes in hexadecimal, two digits each, with colons between them.
pub open spec fn mac_text(b: Seq<u8>) -> Seq<char> {
    text::joined(Seq::new(b.len(), |i: int| text::hex(b[i] as nat, 2)), ":"@)
}

fn format_mac(b: &Vec<u8>) -> (res: String)
    ensures
        res@ == mac_text(b@),
{
    let mut parts: Vec<String> = Vec::new();
    let mut i: usize = 0;
    while i < b.len()
        invariant
            i <= b@.len(),
            parts@.len() == i,
            forall|j: int| 0 <= j < i ==> (#[trigger] parts@[j])@ == text::hex(b@[j] as nat, 2),
        decreases b@.len() - i,
    {
        parts.push(text::hexadecimal(b[i] as u128, 2));
        i += 1;
    }
    assert(text::strings(parts@) =~= Seq::new(b@.len(), |i: int| text::hex(b@[i] as nat, 2)));
    text::join(&parts, ":")
}

/// The name that a list of link attributes gives: that of the last attribute of type 3.
pub open spec fn link_name(a: Seq<(int, Seq<u8>)>) -> Seq<char>
    decreases a.len(),
{
    if a.len() == 0 {
        Seq::empty()
    } else if a.last().0 == 3 {
        without_zeros(text::lossy(a.last().1))
    } else {
        link_name(a.drop_last())
    }
}

/// The hardware address that a list of link attributes gives: that of the last attribute of type
/// 1 with six bytes.
pub open spec fn link_mac(a: Seq<(int, Seq<u8>)>) -> Seq<char>
    decreases a.len(),
{
    if a.len() == 0 {
        Seq::empty()
    } else if a.last().0 == 1 && a.last().1.len() == 6 {
        mac_text(a.last().1)
    } else {
        link_mac(a.drop_last())
    }
}

/// Reads name and hardware address from link attributes.
pub fn parse_link_nlas(d: &[u8], start: usize) -> (res: (String, String))
    requires
        start <= d@.len(),
    ensures
        res.0@ == link_name(attributes(d@, start as int)),
        res.1@ == link_mac(attributes(d@, start as int)),
{
    let list: Vec<Attribute> = read_attributes(d, start);
    let ghost a = attribute_contents(list@);
    let mut name: String = String::new();
    let mut mac: String = String::new();
    let mut i: usize = 0;
    while i < list.len()
        invariant
            i <= list@.len(),
            a == attribute_contents(list@),
            name@ == link_name(a.take(i as int)),
            mac@ == link_mac(a.take(i as int)),
        decreases list@.len() - i,
    {
        assert(a.take(i + 1).drop_last() =~= a.take(i as int));
        assert(a.take(i + 1).last() == (list@[i as int].ty as int, list@[i as int].data@));
        if list[i].ty == 3 {
            let raw: String = text::from_utf8_lossy(list[i].data.as_slice());
            name = trim_zeros(raw.as_str());
        }
        if list[i].ty == 1 && list[i].data.len() == 6 {
            mac = format_mac(&list[i].data);
        }
        i += 1;
    }
    assert(a.take(list@.len() as int) =~= a);
    (name, mac)
}

/// A network interface.
#[derive(Debug)]
pub struct Link {
    pub index: u32,
    pub name: String,
    pub mac: String,
}

/// Whether a message describes a link.
pub open spec fn is_link(m: Seq<u8>) -> bool {
    m.len() >= 32 && le16(m, 4) == 16
}

/// Whether `l` is the link that a message describes.
pub open spec fn link_of(m: Seq<u8>, l: Link) -> bool {
    &&& l.index == le32(m, 20)
    &&& l.name@ == link_name(attributes(m, 32))
    &&& l.mac@ == link_mac(attributes(m, 32))
}

/// Whether `links` are the links that messages describe, in order.
pub open spec fn links_of(msgs: Seq<Seq<u8>>, links: Seq<Link>) -> bool
    decreases msgs.len(),
{
    if msgs.len() == 0 {
        links.len() == 0
    } else if is_link(msgs.last()) {
        links.len() > 0 && link_of(msgs.last(), links.last()) && links_of(
            msgs.drop_last(),
            links.drop_last(),
        )
    } else {
        links_of(msgs.drop_last(), links)
    }
}

/// Reads the links of a dump.
pub fn read_links(msgs: &Vec<Vec<u8>>) -> (res: Vec<Link>)
    ensures
        links_of(contents(msgs@), res@),
{
    let ghost c = contents(msgs@);
    let mut out: Vec<Link> = Vec::new();
    let mut i: usize = 0;
    while i < msgs.len()
        invariant
            i <= msgs@.len(),
            c == contents(msgs@),
            links_of(c.take(i as int), out@),
        decreases msgs@.len() - i,
    {
        assert(c.take(i + 1).drop_last() =~= c.take(i as int));
        assert(c.take(i + 1).last() == msgs@[i as int]@);
        let m: &Vec<u8> = &msgs[i];
        if m.len() >= 32 && u16_at(m.as_slice(), 4) == 16 {
            let index: u32 = u32_at(m.as_slice(), 20);
            let (name, mac) = parse_link_nlas(m.as_slice(), 32);
            let ghost was = out@;
            out.push(Link { index, name, mac });
            assert(out@.drop_last() =~= was);
        }
        i += 1;
    }
    assert(c.take(msgs@.len() as int) =~= c);
    out
}

/// Four bytes as an IPv4 address in dotted notation.
pub open spec fn ipv4_text(b: Seq<u8>) -> Seq<char> {
    text::dec(b[0] as nat) + "."@ + text::dec(b[1] as nat) + "."@ + text::dec(b[2] as nat) + "."@
        + text::dec(b[3] as nat)
}

fn format_ipv4(b: &Vec<u8>) -> (res: String)
    requires
        b@.len() >= 4,
    ensures
        res@ == ipv4_text(b@),
{
    let mut out: String = text::decimal(b[0] as u64);
    out.append(".");
    out.append(text::decimal(b[1] as u64).as_str());
    out.append(".");
    out.append(text::decimal(b[2] as u64).as_str());
    out.append(".");
    out.append(text::decimal(b[3] as u64).as_str());
    out
}

/// The address in the first attribute of a type that holds one.
pub open spec fn ipv4_in(a: Seq<(int, Seq<u8>)>, target: int) -> Option<Seq<char>>
    decreases a.len(),
{
    if a.len() == 0 {
        None
    } else if a[0].0 == target && a[0].1.len() >= 4 {
        Some(ipv4_text(a[0].1))
    } else {
        ipv4_in(a.skip(1), target)
    }
}

/// Finds an IPv4 address among attributes.
pub fn find_ipv4_nla(d: &[u8], start: usize, target: u16) -> (res: Option<String>)
    requires
        start <= d@.len(),
    ensures
        text::opt_string(res) == ipv4_in(attributes(d@, start as int), target as int),
{
    let list: Vec<Attribute> = read_attributes(d, start);
    let ghost a = attribute_contents(list@);
    let mut i: usize = 0;
    assert(a.skip(0) =~= a);
    while i < list.len()
        invariant
            i <= list@.len(),
            a == attribute_contents(list@),
            a == attributes(d@, start as int),
            ipv4_in(a, target as int) == ipv4_in(a.skip(i as int), target as int),
        decreases list@.len() - i,
    {
        assert(a.skip(i as int)[0] == (list@[i as int].ty as int, list@[i as int].data@));
        assert(a.skip(i as int).skip(1) =~= a.skip(i + 1));
        if list[i].ty == target && list[i].data.len() >= 4 {
            return Some(format_ipv4(&list[i].data));
        }
        i += 1;
    }
    None
}

/// Whether a message describes an IPv4 address of an interface.
pub open spec fn is_address(m: Seq<u8>, index: int) -> bool {
    m.len() >= 24 && le16(m, 4) == 20 && m[16] == AF_INET && le32(m, 20) == index
}

/// The address and prefix length that a message gives for an interface.
pub open spec fn address_of(m: Seq<u8>, index: int) -> Option<Seq<char>> {
    if is_address(m, index) {
        match ipv4_in(attributes(m, 24), 1) {
            Some(ip) => Some(ip + "/"@ + text::dec(m[17] as nat)),
            None => None,
        }
    } else {
        None
    }
}

/// The first address that messages give for an interface.
pub open spec fn first_address(msgs: Seq<Seq<u8>>, index: int) -> Option<Seq<char>>
    decreases msgs.len(),
{
    if msgs.len() == 0 {
        None
    } else {
        match address_of(msgs[0], index) {
            Some(a) => Some(a),
            None => first_address(msgs.skip(1), index),
        }
    }
}

/// Finds the first IPv4 address of an interface in a dump of addresses.
pub fn get_ipv4(msgs: &Vec<Vec<u8>>, index: u32) -> (res: Option<String>)
    ensures
        text::opt_string(res) == first_address(contents(msgs@), index as int),
{
    let ghost c = contents(msgs@);
    let mut i: usize = 0;
    assert(c.skip(0) =~= c);
    while i < msgs.len()
        invariant
            i <= msgs@.len(),
            c == contents(msgs@),
            first_address(c, index as int) == first_address(c.skip(i as int), index as int),
        decreases msgs@.len() - i,
    {
        assert(c.skip(i as int)[0] == msgs@[i as int]@);
        assert(c.skip(i as int).skip(1) =~= c.skip(i + 1));
        let m: &Vec<u8> = &msgs[i];
        if m.len() >= 24 && u16_at(m.as_slice(), 4) == 20 && m[16] == AF_INET && u32_at(
            m.as_slice(),
            20,
        ) == index {
            if let Some(ip) = find_ipv4_nla(m.as_slice(), 24, 1) {
                let prefix: String = text::decimal(m[17] as u64);
                return Some(text::join3(ip.as_str(), "/", prefix.as_str()));
            }
        }
        i += 1;
    }
    None
}

/// The gateway that a message gives, where it describes a default route.
pub open spec fn gateway_of(m: Seq<u8>) -> Option<Seq<char>> {
    if m.len() >= 28 && le16(m, 4) == 24 && m[17] == 0 {
        ipv4_in(attributes(m, 28), 5)
    } else {
        None
    }
}

/// The first gateway of a default route.
pub open spec fn first_gateway(msgs: Seq<Seq<u8>>) -> Option<Seq<char>>
    decreases msgs.len(),
{
    if msgs.len() == 0 {
        None
    } else {
        match gateway_of(msgs[0]) {
            Some(g) => Some(g),
            None => first_gateway(msgs.skip(1)),
        }
    }
}

/// Finds the gateway of the default route in a dump of routes.
pub fn get_default_gw(msgs: &Vec<Vec<u8>>) -> (res: Option<String>)
    ensures
        text::opt_string(res) == first_gateway(contents(msgs@)),
{
    let ghost c = contents(msgs@);
    let mut i: usize = 0;
    assert(c.skip(0) =~= c);
    while i < msgs.len()
        invariant
            i <= msgs@.len(),
            c == contents(msgs@),
            first_gateway(c) == first_gateway(c.skip(i as int)),
        decreases msgs@.len() - i,
    {
        assert(c.skip(i as int)[0] == msgs@[i as int]@);
        assert(c.skip(i as int).skip(1) =~= c.skip(i + 1));
        let m: &Vec<u8> = &msgs[i];
        if m.len() >= 28 && u16_at(m.as_slice(), 4) == 24 && m[17] == 0 {
            if let Some(gw) = find_ipv4_nla(m.as_slice(), 28, 5) {
                return Some(gw);
            }
        }
        i += 1;
    }
    None
}

/// The requests that delete the addresses of an interface: each message of the dump that
/// describes one, under a new header.
pub open spec fn deletions(msgs: Seq<Seq<u8>>, index: int, seq: int) -> Seq<Seq<u8>>
    decreases msgs.len(),
{
    if msgs.len() == 0 {
        Seq::empty()
    } else {
        let before = deletions(msgs.drop_last(), index, seq);
        let m = msgs.last();
        if is_address(m, index) {
            before.push(header(m.len() as int, 21, 5, (seq + before.len()) % 4294967296) + m.skip(12))
        } else {
            before
        }
    }
}

/// Builds the requests that delete the addresses of an interface, numbered from `seq` on.
pub fn flush_requests(msgs: &Vec<Vec<u8>>, index: u32, seq: u32) -> (res: Vec<Vec<u8>>)
    ensures
        contents(res@) == deletions(contents(msgs@), index as int, seq as int),
{
    let ghost c = contents(msgs@);
    let mut out: Vec<Vec<u8>> = Vec::new();
    let mut next: u32 = seq;
    let mut i: usize = 0;
    assert(contents(out@) =~= deletions(c.take(0), index as int, seq as int));
    while i < msgs.len()
        invariant
            i <= msgs@.len(),
            c == contents(msgs@),
            contents(out@) == deletions(c.take(i as int), index as int, seq as int),
            next == (seq + out@.len()) % 4294967296,
        decreases msgs@.len() - i,
    {
        assert(c.take(i + 1).drop_last() =~= c.take(i as int));
        assert(c.take(i + 1).last() == msgs@[i as int]@);
        let m: &Vec<u8> = &msgs[i];
        if m.len() >= 24 && u16_at(m.as_slice(), 4) == 20 && m[16] == AF_INET && u32_at(
            m.as_slice(),
            20,
        ) == index {
            let mut del: Vec<u8> = copy_range(m.as_slice(), 0, m.len());
            assert(del@ =~= m@);
            proof {
                lemma_u32le_wraps(m@.len() as int);
            }
            nlhdr(&mut del, (m.len() as u64 % 0x1_0000_0000) as u32, 21, 5, next);
            let ghost was = out@;
            let ghost dv = del@;
            out.push(del);
            assert(contents(out@) =~= contents(was).push(dv));
            next = next.wrapping_add(1);
        }
        i += 1;
    }
    assert(c.take(msgs@.len() as int) =~= c);
    out
}

/// Whether a link can be the pod's side of the network: not the loopback, the TAP device or a
/// link without a name.
pub open spec fn candidate(name: Seq<char>, tap: Seq<char>) -> bool {
    name != "lo"@ && name != tap && name.len() > 0
}

/// The place of the first candidate among the links from `from` on; the number of links where there
/// is none.
pub open spec fn next_candidate(links: Seq<Link>, tap: Seq<char>, from: int) -> int
    decreases links.len() - from,
{
    if 0 <= from < links.len() && !candidate(links[from].name@, tap) {
        next_candidate(links, tap, from + 1)
    } else {
        from
    }
}

/// Finds the next link that may be the pod's interface.
pub fn find_candidate(links: &Vec<Link>, tap: &str, from: usize) -> (res: Option<usize>)
    requires
        from <= links@.len(),
    ensures
        match res {
            Some(i) => i == next_candidate(links@, tap@, from as int) && from <= i < links@.len()
                && candidate(links@[i as int].name@, tap@),
            None => next_candidate(links@, tap@, from as int) == links@.len(),
        },
{
    let mut i: usize = from;
    while i < links.len()
        invariant
            from <= i <= links@.len(),
            next_candidate(links@, tap@, from as int) == next_candidate(links@, tap@, i as int),
        decreases links@.len() - i,
    {
        let l: &Link = &links[i];
        if !text::same(l.name.as_str(), "lo") && !text::same(l.name.as_str(), tap)
            && !l.name.as_str().is_empty() {
            return Some(i);
        }
        i += 1;
    }
    None
}

/// An attribute that was written is read back, with what follows it.
#[verifier::spinoff_prover]
pub proof fn law_attribute_round_trip(ty: u16, data: Seq<u8>, rest: Seq<u8>)
    requires
        data.len() <= 65531,
    ensures
        attributes(attribute(ty as int, data) + rest, 0) == seq![(ty as int, data)] + attributes(
            rest,
            0,
        ),
{
    let a = attribute(ty as int, data);
    let d = a + rest;
    let len = (4 + data.len()) as int;
    assert(d =~= Seq::<u8>::empty() + u16le(len) + (d.skip(2)));
    law_u16_round_trip(len as u16, Seq::empty(), d.skip(2));
    assert(le16(d, 0) == len);
    assert(d =~= u16le(len) + u16le(ty as int) + d.skip(4));
    law_u16_round_trip(ty, u16le(len), d.skip(4));
    assert(le16(d, 2) == ty);
    assert(d.subrange(4, len) =~= data);
    assert(align4(len) == a.len());
    lemma_attributes_shift(a, rest, 0);
}

/// What is read from an offset depends on the bytes from there on alone.
proof fn lemma_attributes_shift(a: Seq<u8>, rest: Seq<u8>, off: int)
    requires
        0 <= off,
    ensures
        attributes(a + rest, a.len() + off) == attributes(rest, off),
    decreases left(rest, off),
{
    let d = a + rest;
    if off + 4 <= rest.len() {
        assert(d[a.len() + off] == rest[off]);
        assert(d[a.len() + off + 1] == rest[off + 1]);
        assert(d[a.len() + off + 2] == rest[off + 2]);
        assert(d[a.len() + off + 3] == rest[off + 3]);
        let len = le16(rest, off);
        if len >= 4 && off + len <= rest.len() {
            lemma_attributes_shift(a, rest, off + align4(len));
            assert(d.subrange(a.len() + off + 4, a.len() + off + len) =~= rest.subrange(
                off + 4,
                off + len,
            ));
        }
    }
}

/// A message that was sent is read as one message, with what follows it in the buffer.
pub proof fn law_message_round_trip(
    ty: u16,
    flags: u16,
    seq: u32,
    payload: Seq<u8>,
    rest: Seq<u8>,
)
    requires
        payload.len() + 16 <= u32::MAX,
        payload.len() % 4 == 0,
        ty != 2,
        ty != 3,
    ensures
        ({
            let m = message(ty as int, flags as int, seq as int, payload);
            let r = scanned(m + rest, 0);
            let q = scanned(rest, 0);
            r.0 == seq![m] + q.0 && r.1 == q.1
        }),
{
    let m = message(ty as int, flags as int, seq as int, payload);
    let len = (16 + payload.len()) as int;
    lemma_message_header(ty, flags, seq, payload);
    lemma_first_message(m, rest, len, ty as int);
    lemma_scanned_shift(m, rest, 0);
}

/// A message begins with its length and its type.
proof fn lemma_message_header(ty: u16, flags: u16, seq: u32, payload: Seq<u8>)
    requires
        payload.len() + 16 <= u32::MAX,
    ensures
        message(ty as int, flags as int, seq as int, payload).len() == 16 + payload.len(),
        le32(message(ty as int, flags as int, seq as int, payload), 0) == 16 + payload.len(),
        le16(message(ty as int, flags as int, seq as int, payload), 4) == ty,
{
    let len = (16 + payload.len()) as int;
    let m = message(ty as int, flags as int, seq as int, payload);
    assert(m[0] == u32le(len)[0] && m[1] == u32le(len)[1] && m[2] == u32le(len)[2] && m[3] == u32le(
        len,
    )[3]);
    assert(m[4] == u16le(ty as int)[0] && m[5] == u16le(ty as int)[1]);
}

/// The first message of a buffer is read, and then what follows it.
proof fn lemma_first_message(m: Seq<u8>, rest: Seq<u8>, len: int, ty: int)
    requires
        m.len() == len,
        len >= 16,
        len % 4 == 0,
        le32(m, 0) == len,
        le16(m, 4) == ty,
        ty != 2,
        ty != 3,
    ensures
        scanned(m + rest, 0) == (
            seq![m] + scanned(m + rest, len).0,
            scanned(m + rest, len).1,
        ),
{
    let d = m + rest;
    assert(d[0] == m[0] && d[1] == m[1] && d[2] == m[2] && d[3] == m[3] && d[4] == m[4] && d[5]
        == m[5]);
    assert(le32(d, 0) == len);
    assert(le16(d, 4) == ty);
    assert(align4(len) == len);
    assert(d.subrange(0, len) =~= m);
}

proof fn lemma_scanned_shift(a: Seq<u8>, rest: Seq<u8>, off: int)
    requires
        0 <= off,
    ensures
        scanned(a + rest, a.len() + off) == scanned(rest, off),
    decreases left(rest, off),
{
    let d = a + rest;
    let n = a.len() as int;
    if off + 16 <= rest.len() {
        assert forall|k: int| 0 <= k < rest.len() - off implies #[trigger] d[n + off + k] == rest[off
            + k] by {}
        assert(d[n + off + 0] == rest[off + 0]);
        assert(d[n + off + 1] == rest[off + 1]);
        assert(d[n + off + 2] == rest[off + 2]);
        assert(d[n + off + 3] == rest[off + 3]);
        assert(d[n + off + 4] == rest[off + 4]);
        assert(d[n + off + 5] == rest[off + 5]);
        if off + 20 <= rest.len() {
            assert(d[n + off + 16] == rest[off + 16]);
            assert(d[n + off + 17] == rest[off + 17]);
            assert(d[n + off + 18] == rest[off + 18]);
            assert(d[n + off + 19] == rest[off + 19]);
        }
        let len = le32(rest, off);
        if len > 0 {
            lemma_scanned_shift(a, rest, off + align4(len));
            if off + len <= rest.len() {
                assert(d.subrange(n + off, n + off + len) =~= rest.subrange(off, off + len));
            }
        }
    }
}

/// What a message is: its type.
#[verifier::opaque]
pub open spec fn kind_in(m: Seq<u8>) -> int {
    le16(m, 4)
}

/// The interface that a traffic-control or link request is about: the second word behind the
/// header.
#[verifier::opaque]
pub open spec fn interface_in(m: Seq<u8>) -> int {
    le32(m, 20)
}

/// The flags that a link request sets: the third word behind the header.
#[verifier::opaque]
pub open spec fn flags_in(m: Seq<u8>) -> int {
    le32(m, 24)
}

/// The interface that a redirecting filter sends packets to: the last word of the parameters of its
/// one action.
#[verifier::opaque]
pub open spec fn target_in(m: Seq<u8>) -> int {
    le32(m, 100)
}

/// A number is read where its four bytes stand.
proof fn lemma_word_at(m: Seq<u8>, o: int, n: u32)
    requires
        0 <= o,
        o + 4 <= m.len(),
        m.subrange(o, o + 4) == u32le(n as int),
    ensures
        le32(m, o) == n,
{
    let s = m.subrange(o, o + 4);
    assert(m =~= m.take(o) + u32le(n as int) + m.skip(o + 4)) by {
        assert(m =~= m.take(o) + m.subrange(o, o + 4) + m.skip(o + 4));
    }
    law_u32_round_trip(n, m.take(o), m.skip(o + 4));
}

/// The header of a message says how long it is, what it is, what is asked, and its number, and
/// addresses the kernel.
#[verifier::spinoff_prover]
pub proof fn law_header_reads_back(ty: u16, flags: u16, seq: u32, payload: Seq<u8>)
    requires
        payload.len() + 16 <= u32::MAX,
    ensures
        ({
            let m = message(ty as int, flags as int, seq as int, payload);
            &&& m.len() == 16 + payload.len()
            &&& le32(m, 0) == m.len()
            &&& le16(m, 4) == ty
            &&& le16(m, 6) == flags
            &&& le32(m, 8) == seq
            &&& le32(m, 12) == 0
            &&& m.skip(16) == payload
        }),
{
    let m = message(ty as int, flags as int, seq as int, payload);
    lemma_message_header(ty, flags, seq, payload);
    let head = u32le((16 + payload.len()) as int) + u16le(ty as int);
    assert(m =~= head + u16le(flags as int) + m.skip(8));
    law_u16_round_trip(flags, head, m.skip(8));
    assert(m.subrange(8, 12) =~= u32le(seq as int));
    lemma_word_at(m, 8, seq);
    assert(m.subrange(12, 16) =~= u32le(0));
    lemma_word_at(m, 12, 0);
    assert(m.skip(16) =~= payload);
}

/// A redirecting filter, read back: it stands on the ingress of `src`, and its action steals packets
/// and sends them out of `dst`.
#[verifier::spinoff_prover]
pub proof fn law_redirect_reads_back(src: u32, dst: u32, seq: u32)
    ensures
        ({
            let m = message(44, 0x605, seq as int, redirect(src as int, dst as int));
            &&& le32(m, 0) == m.len()
            &&& kind_in(m) == 44
            &&& le16(m, 6) == 0x605
            &&& le32(m, 8) == seq
            &&& interface_in(m) == src
            &&& le32(m, 28) == 0xFFFF0000
            &&& target_in(m) == dst
            &&& le32(m, 84) == 4
            &&& le32(m, 96) == 1
        }),
{
    reveal_strlit("u32");
    reveal_strlit("mirred");
    lemma_ascii_len("u32");
    lemma_ascii_len("mirred");
    reveal(kind_in);
    reveal(interface_in);
    reveal(target_in);
    let p = redirect(src as int, dst as int);
    let m = message(44, 0x605, seq as int, p);
    let parms = redirect_parameters(dst as int);
    let (front, rest) = lemma_redirect_parts(src, dst);
    assert(p.len() < 1000) by {
        assert(rest.len() == 36);
    }
    law_header_reads_back(44, 0x605, seq, p);
    lemma_words_of_payload(m, front, parms, rest);
    assert(front.subrange(4, 8) =~= u32le(src as int));
    assert(m.subrange(20, 24) =~= front.subrange(4, 8));
    lemma_word_at(m, 20, src);
    assert(front.subrange(12, 16) =~= u32le(0xFFFF0000));
    assert(m.subrange(28, 32) =~= front.subrange(12, 16));
    lemma_word_at(m, 28, 0xFFFF0000);
    assert(m.subrange(84, 88) =~= parms.subrange(8, 12));
    assert(parms.subrange(8, 12) =~= u32le(4));
    lemma_word_at(m, 84, 4);
    assert(m.subrange(96, 100) =~= parms.subrange(20, 24));
    assert(parms.subrange(20, 24) =~= u32le(1));
    lemma_word_at(m, 96, 1);
    assert(m.subrange(100, 104) =~= parms.subrange(24, 28));
    assert(parms.subrange(24, 28) =~= u32le(dst as int));
    lemma_word_at(m, 100, dst);
}

/// Where the parts of a payload stand in its message.
proof fn lemma_words_of_payload(m: Seq<u8>, front: Seq<u8>, parms: Seq<u8>, rest: Seq<u8>)
    requires
        m.len() >= 16,
        m.skip(16) == front + parms + rest,
    ensures
        m.subrange(16, (16 + front.len()) as int) == front,
        m.subrange((16 + front.len()) as int, (16 + front.len() + parms.len()) as int) == parms,
{
    let p = front + parms + rest;
    assert forall|i: int| 0 <= i < p.len() implies #[trigger] m[16 + i] == p[i] by {
        assert(m.skip(16)[i] == p[i]);
    }
    assert(m.len() == 16 + p.len());
    assert(m.subrange(16, (16 + front.len()) as int) =~= front);
    let from = (16 + front.len()) as int;
    let part = m.subrange(from, from + parms.len());
    assert forall|i: int| 0 <= i < parms.len() implies part[i] == parms[i] by {
        assert(m[16 + (front.len() + i)] == p[front.len() + i]);
    }
    assert(part =~= parms);
}

/// What stands in front of the parameters of a redirecting filter, and what follows them.
#[verifier::spinoff_prover]
proof fn lemma_redirect_parts(src: u32, dst: u32) -> (res: (Seq<u8>, Seq<u8>))
    ensures
        redirect(src as int, dst as int) == res.0 + redirect_parameters(dst as int) + res.1,
        res.0.len() == 60,
        res.0.take(20) == traffic(src as int, 0, 0xFFFF0000, 0x0300),
        res.1.len() == 36,
{
    reveal_strlit("u32");
    reveal_strlit("mirred");
    lemma_ascii_len("u32");
    lemma_ascii_len("mirred");
    let t = traffic(src as int, 0, 0xFFFF0000, 0x0300);
    let kind = text_attribute(1, "u32"@);
    let action = text_attribute(1, "mirred"@);
    let parms = redirect_parameters(dst as int);
    let deep = nested(2, parms);
    let h5 = u16le((4 + parms.len()) as int) + u16le(2);
    let h4 = u16le((4 + deep.len()) as int) + u16le(32770);
    let tab = action + nested(32770, deep);
    let h3 = u16le((4 + tab.len()) as int) + u16le(1);
    let mid = nested(1, tab);
    let h2 = u16le((4 + mid.len()) as int) + u16le(7);
    let rest = match_all();
    let opts = redirect_actions(dst as int) + rest;
    let h1 = u16le((4 + opts.len()) as int) + u16le(2);
    lemma_parts(h2, h3, action, h4, h5, parms);
    let inner = h2 + h3 + action + h4 + h5;
    assert(redirect_actions(dst as int) == inner + parms);
    let front = t + kind + h1 + inner;
    assert(t + kind + (h1 + ((inner + parms) + rest)) =~= front + parms + rest);
    assert(redirect(src as int, dst as int) == front + parms + rest);
    assert(front.take(20) =~= t);
    (front, rest)
}

/// Nesting puts the headers one behind the other.
proof fn lemma_parts(
    h2: Seq<u8>,
    h3: Seq<u8>,
    action: Seq<u8>,
    h4: Seq<u8>,
    h5: Seq<u8>,
    parms: Seq<u8>,
)
    ensures
        h2 + (h3 + (action + (h4 + (h5 + parms)))) == h2 + h3 + action + h4 + h5 + parms,
{
    assert(h4 + (h5 + parms) =~= h4 + h5 + parms);
    assert(action + (h4 + h5 + parms) =~= action + h4 + h5 + parms);
    assert(h3 + (action + h4 + h5 + parms) =~= h3 + action + h4 + h5 + parms);
    assert(h2 + (h3 + action + h4 + h5 + parms) =~= h2 + h3 + action + h4 + h5 + parms);
}

/// An ingress request, read back: it is about one interface, and hangs the queueing discipline
/// with the ingress handle on the ingress root.
#[verifier::spinoff_prover]
pub proof fn law_ingress_reads_back(ty: u16, flags: u16, index: u32, seq: u32)
    ensures
        ({
            let m = message(ty as int, flags as int, seq as int, ingress(index as int));
            &&& le32(m, 0) == m.len()
            &&& kind_in(m) == ty
            &&& le16(m, 6) == flags
            &&& le32(m, 8) == seq
            &&& interface_in(m) == index
            &&& le32(m, 24) == 0xFFFF0000
            &&& le32(m, 28) == 0xFFFFFFF1
        }),
{
    reveal_strlit("ingress");
    lemma_ascii_len("ingress");
    reveal(kind_in);
    reveal(interface_in);
    let p = ingress(index as int);
    let m = message(ty as int, flags as int, seq as int, p);
    assert(p.len() == 32);
    law_header_reads_back(ty, flags, seq, p);
    assert(m.subrange(20, 24) =~= u32le(index as int));
    lemma_word_at(m, 20, index);
    assert(m.subrange(24, 28) =~= u32le(0xFFFF0000));
    lemma_word_at(m, 24, 0xFFFF0000);
    assert(m.subrange(28, 32) =~= u32le(0xFFFFFFF1));
    lemma_word_at(m, 28, 0xFFFFFFF1);
}

/// A link request, read back: the interface it is about, the flags it sets, and the flags it may
/// change.
#[verifier::spinoff_prover]
pub proof fn law_link_info_reads_back(ty: u16, index: u32, flags: u32, change: u32, seq: u32)
    ensures
        ({
            let m = message(
                ty as int,
                5,
                seq as int,
                link_info(index as int, flags as int, change as int),
            );
            &&& m.len() == 32
            &&& kind_in(m) == ty
            &&& le16(m, 6) == 5
            &&& le32(m, 8) == seq
            &&& interface_in(m) == index
            &&& flags_in(m) == flags
            &&& le32(m, 28) == change
        }),
{
    reveal(kind_in);
    reveal(interface_in);
    reveal(flags_in);
    let p = link_info(index as int, flags as int, change as int);
    let m = message(ty as int, 5, seq as int, p);
    law_header_reads_back(ty, 5, seq, p);
    assert(m.subrange(20, 24) =~= u32le(index as int));
    lemma_word_at(m, 20, index);
    assert(m.subrange(24, 28) =~= u32le(flags as int));
    lemma_word_at(m, 24, flags);
    assert(m.subrange(28, 32) =~= u32le(change as int));
    lemma_word_at(m, 28, change);
}

/// A request for a link, read back: the link is asked for by its name, which is the one attribute of
/// the request.
#[verifier::spinoff_prover]
pub proof fn law_link_query_reads_back(name: Seq<char>, seq: u32)
    requires
        text::bytes(name).len() <= 65530,
    ensures
        ({
            let m = link_query(name, seq as int);
            &&& kind_in(m) == 18
            &&& le16(m, 6) == 5
            &&& le32(m, 8) == seq
            &&& interface_in(m) == 0
            &&& attributes(m, 32) == seq![(3int, text::bytes(name).push(0))]
        }),
{
    reveal(kind_in);
    reveal(interface_in);
    let a = text_attribute(3, name);
    let p = zeros(16) + a;
    let m = link_query(name, seq as int);
    law_header_reads_back(18, 5, seq, p);
    assert(m.subrange(20, 24) =~= u32le(0));
    lemma_word_at(m, 20, 0);
    law_attribute_round_trip(3, text::bytes(name).push(0), Seq::empty());
    assert(a + Seq::<u8>::empty() =~= a);
    assert(attributes(Seq::<u8>::empty(), 0) =~= Seq::<(int, Seq<u8>)>::empty());
    assert(attributes(a, 0) =~= seq![(3int, text::bytes(name).push(0))]);
    lemma_attributes_shift(m.take(32), a, 0);
    assert(m =~= m.take(32) + a);
}

/// A reply acknowledges a request unless it is an error message with a number other than zero.
pub proof fn law_only_errors_are_errors(r: Seq<u8>)
    ensures
        reply_error(r) != 0 <==> r.len() >= 20 && r[4] == 2 && r[5] == 0 && !(r[16] == 0 && r[17]
            == 0 && r[18] == 0 && r[19] == 0),
        r.len() >= 20 && r[4] == 2 && r[5] == 0 && le32(r, 16) > 0x8000_0000 ==> reply_error(r)
            == 0x1_0000_0000 - le32(r, 16),
{
}

/// Whether four bytes written with dots between them are `t`.
pub open spec fn dotted(b: Seq<u8>, t: Seq<char>) -> bool {
    let dot = seq!['.'];
    b.len() >= 4 && t =~= text::dec(b[0] as nat) + dot + text::dec(b[1] as nat) + dot + text::dec(
        b[2] as nat,
    ) + dot + text::dec(b[3] as nat)
}

/// The address among attributes is that of an attribute of the type asked for with at least four
/// bytes, and where there is such an attribute there is an address.
pub proof fn law_address_among_attributes(a: Seq<(int, Seq<u8>)>, target: int)
    ensures
        match ipv4_in(a, target) {
            Some(t) => exists|i: int|
                0 <= i < a.len() && (#[trigger] a[i]).0 == target && dotted(a[i].1, t) && (forall|
                    k: int,
                |
                    0 <= k < i ==> (#[trigger] a[k]).0 != target || a[k].1.len() < 4),
            None => forall|i: int|
                0 <= i < a.len() ==> (#[trigger] a[i]).0 != target || a[i].1.len() < 4,
        },
    decreases a.len(),
{
    if a.len() > 0 {
        if a[0].0 == target && a[0].1.len() >= 4 {
            reveal_strlit(".");
            assert("."@ =~= seq!['.']);
            assert(dotted(a[0].1, ipv4_in(a, target)->Some_0));
        } else {
            let rest = a.skip(1);
            law_address_among_attributes(rest, target);
            if let Some(t) = ipv4_in(rest, target) {
                let j = choose|j: int|
                    0 <= j < rest.len() && (#[trigger] rest[j]).0 == target && dotted(
                        rest[j].1,
                        t,
                    ) && (forall|k: int|
                        0 <= k < j ==> (#[trigger] rest[k]).0 != target || rest[k].1.len() < 4);
                assert(a[j + 1] == rest[j]);
                assert forall|k: int| 0 <= k < j + 1 implies (#[trigger] a[k]).0 != target
                    || a[k].1.len() < 4 by {
                    if k > 0 {
                        assert(rest[k - 1] == a[k]);
                    }
                }
            } else {
                assert forall|i: int| 0 <= i < a.len() implies (#[trigger] a[i]).0 != target
                    || a[i].1.len() < 4 by {
                    if i > 0 {
                        assert(rest[i - 1] == a[i]);
                    }
                }
            }
        }
    }
}

/// Whether a message is an IPv4 address of an interface that holds the address itself: type,
/// family, interface and an address attribute of four bytes.
pub open spec fn has_address(m: Seq<u8>, index: int) -> bool {
    &&& m.len() >= 24
    &&& m[4] == 20 && m[5] == 0
    &&& m[16] == 2
    &&& le32(m, 20) == index
    &&& exists|i: int|
        0 <= i < attributes(m, 24).len() && (#[trigger] attributes(m, 24)[i]).0 == 1
            && attributes(m, 24)[i].1.len() >= 4
}

/// Whether `t` is an address that a message gives: four bytes of an address attribute with dots,
/// a slash, and the prefix length from the message.
pub open spec fn writes_address(m: Seq<u8>, t: Seq<char>) -> bool {
    exists|i: int, ip: Seq<char>|
        0 <= i < attributes(m, 24).len() && attributes(m, 24)[i].0 == 1 && #[trigger] dotted(
            attributes(m, 24)[i].1,
            ip,
        ) && t =~= ip + seq!['/'] + text::dec(m[17] as nat)
}

/// The address of an interface is the one that the first message gives which is an IPv4 address of
/// just that interface, with the prefix length of the same message.
pub proof fn law_first_address(msgs: Seq<Seq<u8>>, index: int)
    ensures
        match first_address(msgs, index) {
            Some(t) => exists|i: int|
                0 <= i < msgs.len() && #[trigger] has_address(msgs[i], index) && writes_address(
                    msgs[i],
                    t,
                ) && (forall|k: int| 0 <= k < i ==> !#[trigger] has_address(msgs[k], index)),
            None => forall|i: int|
                0 <= i < msgs.len() ==> !#[trigger] has_address(msgs[i], index),
        },
    decreases msgs.len(),
{
    if msgs.len() > 0 {
        let a = attributes(msgs[0], 24);
        law_address_among_attributes(a, 1);
        reveal_strlit("/");
        assert("/"@ =~= seq!['/']);
        match address_of(msgs[0], index) {
            Some(t) => {
                let ip = ipv4_in(a, 1)->Some_0;
                let i = choose|i: int|
                    0 <= i < a.len() && (#[trigger] a[i]).0 == 1 && dotted(a[i].1, ip) && (forall|
                        k: int,
                    |
                        0 <= k < i ==> (#[trigger] a[k]).0 != 1 || a[k].1.len() < 4);
                assert(dotted(a[i].1, ip));
                assert(has_address(msgs[0], index));
                assert(writes_address(msgs[0], t));
            },
            None => {
                let rest = msgs.skip(1);
                law_first_address(rest, index);
                assert(!has_address(msgs[0], index));
                if let Some(t) = first_address(rest, index) {
                    let j = choose|j: int|
                        0 <= j < rest.len() && #[trigger] has_address(rest[j], index)
                            && writes_address(rest[j], t) && (forall|k: int|
                            0 <= k < j ==> !#[trigger] has_address(rest[k], index));
                    assert(msgs[j + 1] == rest[j]);
                    assert(has_address(msgs[j + 1], index));
                    assert forall|k: int| 0 <= k < j + 1 implies !#[trigger] has_address(
                        msgs[k],
                        index,
                    ) by {
                        if k > 0 {
                            assert(rest[k - 1] == msgs[k]);
                        }
                    }
                } else {
                    assert forall|i: int| 0 <= i < msgs.len() implies !#[trigger] has_address(
                        msgs[i],
                        index,
                    ) by {
                        if i > 0 {
                            assert(rest[i - 1] == msgs[i]);
                        }
                    }
                }
            },
        }
    }
}

/// Whether a message is a route with a prefix of no bits and a gateway of four bytes.
pub open spec fn has_gateway(m: Seq<u8>) -> bool {
    &&& m.len() >= 28
    &&& m[4] == 24 && m[5] == 0
    &&& m[17] == 0
    &&& exists|i: int|
        0 <= i < attributes(m, 28).len() && (#[trigger] attributes(m, 28)[i]).0 == 5
            && attributes(m, 28)[i].1.len() >= 4
}

/// Whether `t` is the gateway in a message, with dots.
pub open spec fn writes_gateway(m: Seq<u8>, t: Seq<char>) -> bool {
    exists|i: int|
        0 <= i < attributes(m, 28).len() && (#[trigger] attributes(m, 28)[i]).0 == 5 && dotted(
            attributes(m, 28)[i].1,
            t,
        )
}

/// The gateway is that of the first default route: the first route to everywhere that has one.
pub proof fn law_first_gateway(msgs: Seq<Seq<u8>>)
    ensures
        match first_gateway(msgs) {
            Some(t) => exists|i: int|
                0 <= i < msgs.len() && #[trigger] has_gateway(msgs[i]) && writes_gateway(
                    msgs[i],
                    t,
                ) && (forall|k: int| 0 <= k < i ==> !#[trigger] has_gateway(msgs[k])),
            None => forall|i: int| 0 <= i < msgs.len() ==> !#[trigger] has_gateway(msgs[i]),
        },
    decreases msgs.len(),
{
    if msgs.len() > 0 {
        law_address_among_attributes(attributes(msgs[0], 28), 5);
        match gateway_of(msgs[0]) {
            Some(t) => {
                assert(has_gateway(msgs[0]));
                assert(writes_gateway(msgs[0], t));
            },
            None => {
                let rest = msgs.skip(1);
                law_first_gateway(rest);
                assert(!has_gateway(msgs[0]));
                if let Some(t) = first_gateway(rest) {
                    let j = choose|j: int|
                        0 <= j < rest.len() && #[trigger] has_gateway(rest[j]) && writes_gateway(
                            rest[j],
                            t,
                        ) && (forall|k: int| 0 <= k < j ==> !#[trigger] has_gateway(rest[k]));
                    assert(msgs[j + 1] == rest[j]);
                    assert(has_gateway(msgs[j + 1]));
                    assert forall|k: int| 0 <= k < j + 1 implies !#[trigger] has_gateway(
                        msgs[k],
                    ) by {
                        if k > 0 {
                            assert(rest[k - 1] == msgs[k]);
                        }
                    }
                } else {
                    assert forall|i: int| 0 <= i < msgs.len() implies !#[trigger] has_gateway(
                        msgs[i],
                    ) by {
                        if i > 0 {
                            assert(rest[i - 1] == msgs[i]);
                        }
                    }
                }
            },
        }
    }
}

/// Every address that an interface has is asked to be deleted, and no other: one request for each
/// message that describes one, which says the same as that message but for its header, is a request
/// to delete, and has a number of its own.
#[verifier::spinoff_prover]
pub proof fn law_deletions(msgs: Seq<Seq<u8>>, index: int, seq: u32)
    ensures
        forall|k: int|
            0 <= k < deletions(msgs, index, seq as int).len() ==> is_deletion(
                msgs,
                #[trigger] deletions(msgs, index, seq as int)[k],
                index,
                (seq + k) % 4294967296,
            ),
        forall|i: int|
            0 <= i < msgs.len() && of_interface(#[trigger] msgs[i], index) ==> exists|k: int|
                0 <= k < deletions(msgs, index, seq as int).len() && (#[trigger] deletions(
                    msgs,
                    index,
                    seq as int,
                )[k]).skip(12) == msgs[i].skip(12),
    decreases msgs.len(),
{
    if msgs.len() > 0 {
        let most = msgs.drop_last();
        let m = msgs.last();
        law_deletions(most, index, seq);
        let before = deletions(most, index, seq as int);
        let all = deletions(msgs, index, seq as int);
        assert forall|k: int| 0 <= k < all.len() implies is_deletion(
            msgs,
            #[trigger] all[k],
            index,
            (seq + k) % 4294967296,
        ) by {
            if k < before.len() {
                assert(all[k] == before[k]);
                assert(is_deletion(most, before[k], index, (seq + k) % 4294967296));
                let i = choose|i: int|
                    #![trigger most[i]]
                    0 <= i < most.len() && of_interface(most[i], index) && before[k].len()
                        == most[i].len() && before[k].skip(12) == most[i].skip(12);
                assert(msgs[i] == most[i]);
            } else {
                let n = ((seq + before.len()) % 4294967296) as u32;
                let d = header(m.len() as int, 21, 5, n as int) + m.skip(12);
                assert(all[k] == d);
                let h = header(m.len() as int, 21, 5, n as int);
                assert(h.len() == 12);
                assert(d.skip(12) =~= m.skip(12));
                assert(d =~= (u32le(m.len() as int)) + u16le(21) + d.skip(6));
                law_u16_round_trip(21, u32le(m.len() as int), d.skip(6));
                reveal(kind_in);
                assert(d.subrange(8, 12) =~= u32le(n as int));
                lemma_word_at(d, 8, n);
                assert(msgs[msgs.len() - 1] == m);
            }
        }
        assert forall|i: int| 0 <= i < msgs.len() && of_interface(
            #[trigger] msgs[i],
            index,
        ) implies exists|k: int|
            0 <= k < all.len() && (#[trigger] all[k]).skip(12) == msgs[i].skip(12) by {
            if i < most.len() {
                assert(most[i] == msgs[i]);
                let k = choose|k: int|
                    0 <= k < before.len() && (#[trigger] before[k]).skip(12) == most[i].skip(12);
                assert(all[k] == before[k]);
            } else {
                let last = all[all.len() - 1];
                let h = header(
                    m.len() as int,
                    21,
                    5,
                    (seq + before.len()) % 4294967296,
                );
                assert(h.len() == 12);
                assert(last.skip(12) =~= m.skip(12));
            }
        }
    }
}

/// Whether `d` asks, under a number, to delete an address that one of the messages describes: the
/// rest of it is that message, which comes from the interface and is of the IPv4 family.
pub open spec fn is_deletion(msgs: Seq<Seq<u8>>, d: Seq<u8>, index: int, seq: int) -> bool {
    &&& kind_in(d) == 21
    &&& le32(d, 8) == seq
    &&& exists|i: int|
        #![trigger msgs[i]]
        0 <= i < msgs.len() && of_interface(msgs[i], index) && d.len() == msgs[i].len() && d.skip(
            12,
        ) == msgs[i].skip(12)
}

/// Whether a message is about an IPv4 address of an interface.
pub open spec fn of_interface(m: Seq<u8>, index: int) -> bool {
    m.len() >= 24 && m[4] == 20 && m[5] == 0 && m[16] == 2 && le32(m, 20) == index
}

/// The link that is looked at next is the first from the start on that is neither the loopback nor
/// the TAP device and has a name.
pub proof fn law_next_candidate(links: Seq<Link>, tap: Seq<char>, from: int)
    requires
        0 <= from <= links.len(),
    ensures
        from <= next_candidate(links, tap, from) <= links.len(),
        next_candidate(links, tap, from) < links.len() ==> {
            let name = links[next_candidate(links, tap, from)].name@;
            name != "lo"@ && name != tap && name.len() > 0
        },
        forall|i: int|
            from <= i < next_candidate(links, tap, from) ==> (#[trigger] links[i]).name@ == "lo"@
                || links[i].name@ == tap || links[i].name@.len() == 0,
    decreases links.len() - from,
{
    if from < links.len() && !candidate(links[from].name@, tap) {
        law_next_candidate(links, tap, from + 1);
    }
}

/// A request for a list, read back: what is listed, that all of it is asked for, and the family.
#[verifier::spinoff_prover]
pub proof fn law_dump_reads_back(ty: u16, seq: u32, size: int)
    requires
        4 <= size <= 64,
    ensures
        ({
            let m = message(ty as int, 0x301, seq as int, seq![AF_INET] + zeros(size - 1));
            &&& kind_in(m) == ty
            &&& le16(m, 6) == 1 + 0x300
            &&& le32(m, 8) == seq
            &&& m.len() == 16 + size
            &&& m[16] == 2
        }),
        ({
            let m = message(ty as int, 0x301, seq as int, zeros(size));
            &&& kind_in(m) == ty
            &&& le16(m, 6) == 1 + 0x300
            &&& le32(m, 8) == seq
            &&& m.len() == 16 + size
            &&& m[16] == 0
        }),
{
    reveal(kind_in);
    let p = seq![AF_INET] + zeros(size - 1);
    law_header_reads_back(ty, 0x301, seq, p);
    assert(message(ty as int, 0x301, seq as int, p).skip(16)[0] == 2);
    let q = zeros(size);
    law_header_reads_back(ty, 0x301, seq, q);
    assert(message(ty as int, 0x301, seq as int, q).skip(16)[0] == 0);
}

/// The text of a hardware address is its six bytes in hexadecimal, two digits each, with colons
/// between them.
pub proof fn law_mac_text(b: Seq<u8>)
    requires
        b.len() == 6,
    ensures
        ({
            let h = |i: int| text::hex(b[i] as nat, 2);
            mac_text(b) == h(0) + seq![':'] + h(1) + seq![':'] + h(2) + seq![':'] + h(3) + seq![':']
                + h(4) + seq![':'] + h(5)
        }),
{
    reveal_strlit(":");
    assert(":"@ =~= seq![':']);
    let v = Seq::new(b.len(), |i: int| text::hex(b[i] as nat, 2));
    reveal_with_fuel(text::joined, 7);
    let v5 = v.drop_last();
    let v4 = v5.drop_last();
    let v3 = v4.drop_last();
    let v2 = v3.drop_last();
    let v1 = v2.drop_last();
    assert(v1.len() == 1 && v1[0] == v[0]);
    assert(v2.last() == v[1] && v3.last() == v[2] && v4.last() == v[3] && v5.last() == v[4]
        && v.last() == v[5]);
    assert(text::joined(v1, ":"@) == v[0]);
    assert(text::joined(v2, ":"@) == text::joined(v1, ":"@) + ":"@ + v[1]);
    assert(text::joined(v3, ":"@) == text::joined(v2, ":"@) + ":"@ + v[2]);
    assert(text::joined(v4, ":"@) == text::joined(v3, ":"@) + ":"@ + v[3]);
    assert(text::joined(v5, ":"@) == text::joined(v4, ":"@) + ":"@ + v[4]);
    assert(text::joined(v, ":"@) == text::joined(v5, ":"@) + ":"@ + v[5]);
}

/// The zero characters behind a name are taken off it, and nothing else.
pub proof fn law_without_zeros(s: Seq<char>) -> (n: nat)
    ensures
        n <= s.len(),
        without_zeros(s) == s.take(n as int),
        forall|i: int| n <= i < s.len() ==> #[trigger] s[i] == '\0',
        n > 0 ==> s[n - 1] != '\0',
    decreases s.len(),
{
    if s.len() > 0 && s.last() == '\0' {
        let t = s.drop_last();
        let n = law_without_zeros(t);
        assert(t.take(n as int) =~= s.take(n as int));
        assert forall|i: int| n <= i < s.len() implies #[trigger] s[i] == '\0' by {
            if i < s.len() - 1 {
                assert(t[i] == s[i]);
            }
        }
        if n > 0 {
            assert(t[n - 1] == s[n - 1]);
        }
        n
    } else {
        assert(s.take(s.len() as int) =~= s);
        s.len()
    }
}

/// Name and hardware address of a link are those of the last attributes that give them.
pub proof fn law_link_attributes(a: Seq<(int, Seq<u8>)>, i: int)
    requires
        0 <= i < a.len(),
    ensures
        a[i].0 == 3 && (forall|k: int| i < k < a.len() ==> (#[trigger] a[k]).0 != 3) ==> link_name(a)
            == without_zeros(text::lossy(a[i].1)),
        a[i].0 == 1 && a[i].1.len() == 6 && (forall|k: int|
            i < k < a.len() ==> (#[trigger] a[k]).0 != 1 || a[k].1.len() != 6) ==> link_mac(a)
            == mac_text(a[i].1),
    decreases a.len(),
{
    let n = a.len() - 1;
    let most = a.drop_last();
    assert(a.last() == a[n]);
    if i < n {
        law_link_attributes(most, i);
        assert(most[i] == a[i]);
    }
    assert(forall|k: int| 0 <= k < most.len() ==> #[trigger] most[k] == a[k]);
}

/// The links of a dump are those that its link messages describe, one for each and in order, with the
/// index that the message gives. The result says which message each link is from.
pub proof fn law_links_of_dump(msgs: Seq<Seq<u8>>, links: Seq<Link>) -> (from: Seq<int>)
    requires
        links_of(msgs, links),
    ensures
        from.len() == links.len(),
        forall|i: int|
            0 <= i < from.len() ==> 0 <= #[trigger] from[i] < msgs.len() && msgs[from[i]].len() >= 32
                && msgs[from[i]][4] == 16 && msgs[from[i]][5] == 0 && links[i].index == le32(
                msgs[from[i]],
                20,
            ) && links[i].name@ == link_name(attributes(msgs[from[i]], 32)) && links[i].mac@
                == link_mac(attributes(msgs[from[i]], 32)),
        forall|i: int, j: int| 0 <= i < j < from.len() ==> #[trigger] from[i] < #[trigger] from[j],
        forall|k: int|
            0 <= k < msgs.len() && (#[trigger] msgs[k]).len() >= 32 && msgs[k][4] == 16 && msgs[k][5]
                == 0 ==> exists|i: int| 0 <= i < from.len() && #[trigger] from[i] == k,
    decreases msgs.len(),
{
    if msgs.len() == 0 {
        Seq::empty()
    } else {
        let n = msgs.len() - 1;
        let most = msgs.drop_last();
        assert(msgs.last() == msgs[n]);
        let (before, res) = if is_link(msgs.last()) {
            let b = law_links_of_dump(most, links.drop_last());
            (b, b.push(n))
        } else {
            let b = law_links_of_dump(most, links);
            (b, b)
        };
        assert forall|i: int| 0 <= i < res.len() implies 0 <= #[trigger] res[i] < msgs.len()
            && msgs[res[i]].len() >= 32 && msgs[res[i]][4] == 16 && msgs[res[i]][5] == 0
            && links[i].index == le32(msgs[res[i]], 20) && links[i].name@ == link_name(
            attributes(msgs[res[i]], 32),
        ) && links[i].mac@ == link_mac(attributes(msgs[res[i]], 32)) by {
            if i < before.len() {
                assert(res[i] == before[i]);
                assert(most[before[i]] == msgs[res[i]]);
            }
        }
        assert forall|k: int|
            0 <= k < msgs.len() && (#[trigger] msgs[k]).len() >= 32 && msgs[k][4] == 16 && msgs[k][5]
                == 0 implies exists|i: int| 0 <= i < res.len() && #[trigger] res[i] == k by {
            if k < n {
                assert(most[k] == msgs[k]);
                let i = choose|i: int| 0 <= i < before.len() && #[trigger] before[i] == k;
                assert(res[i] == k);
            } else {
                assert(is_link(msgs[n]));
                assert(res[before.len() as int] == n);
            }
        }
        res
    }
}

/// A link without an attribute for its name has none, and one without an attribute of six bytes for
/// its hardware address has none of these.
pub proof fn law_link_without_attributes(a: Seq<(int, Seq<u8>)>)
    ensures
        (forall|k: int| 0 <= k < a.len() ==> (#[trigger] a[k]).0 != 3) ==> link_name(a).len() == 0,
        (forall|k: int| 0 <= k < a.len() ==> (#[trigger] a[k]).0 != 1 || a[k].1.len() != 6)
            ==> link_mac(a).len() == 0,
    decreases a.len(),
{
    if a.len() > 0 {
        let most = a.drop_last();
        law_link_without_attributes(most);
        assert(a.last() == a[a.len() - 1]);
        if forall|k: int| 0 <= k < a.len() ==> (#[trigger] a[k]).0 != 3 {
            assert forall|k: int| 0 <= k < most.len() implies (#[trigger] most[k]).0 != 3 by {
                assert(most[k] == a[k]);
            }
        }
        if forall|k: int| 0 <= k < a.len() ==> (#[trigger] a[k]).0 != 1 || a[k].1.len() != 6 {
            assert forall|k: int| 0 <= k < most.len() implies (#[trigger] most[k]).0 != 1
                || most[k].1.len() != 6 by {
                assert(most[k] == a[k]);
            }
        }
    }
}

/// A signed number has the same four bytes as the unsigned one that differs from it by nothing, or by
/// two to the power of 32 where its highest bit is set.
pub proof fn law_signed_number(b: Seq<u8>, o: int)
    requires
        0 <= o,
        o + 4 <= b.len(),
    ensures
        -0x8000_0000 <= sle32(b, o) < 0x8000_0000,
        sle32(b, o) == le32(b, o) || sle32(b, o) == le32(b, o) - 0x1_0000_0000,
        sle32(b, o) < 0 <==> b[o + 3] >= 128,
{
}

} // verus!
