//! Pod addresses: netmasks, and the kernel parameter that configures the guest's interface.

use crate::text;
use vstd::prelude::*;

verus! {

/// A byte with `n` leading one bits, for `n` up to 8.
pub open spec fn leading_ones(n: int) -> nat {
    if n <= 0 {
        0
    } else if n == 1 {
        128
    } else if n == 2 {
        192
    } else if n == 3 {
        224
    } else if n == 4 {
        240
    } else if n == 5 {
        248
    } else if n == 6 {
        252
    } else if n == 7 {
        254
    } else {
        255
    }
}

fn leading_ones_byte(n: u32) -> (res: u64)
    ensures
        res == leading_ones(n as int),
{
    if n == 0 {
        0
    } else if n == 1 {
        128
    } else if n == 2 {
        192
    } else if n == 3 {
        224
    } else if n == 4 {
        240
    } else if n == 5 {
        248
    } else if n == 6 {
        252
    } else if n == 7 {
        254
    } else {
        255
    }
}

/// The netmask with `prefix` leading one bits, in dotted notation.
pub open spec fn netmask(prefix: int) -> Seq<char> {
    text::dec(leading_ones(prefix)) + "."@ + text::dec(leading_ones(prefix - 8)) + "."@ + text::dec(
        leading_ones(prefix - 16),
    ) + "."@ + text::dec(leading_ones(prefix - 24))
}

/// Converts a prefix length to a netmask.
pub fn prefix_to_netmask(prefix: u32) -> (res: String)
    requires
        prefix <= 32,
    ensures
        res@ == netmask(prefix as int),
{
    let b: u32 = if prefix < 8 {
        0
    } else {
        prefix - 8
    };
    let c: u32 = if prefix < 16 {
        0
    } else {
        prefix - 16
    };
    let d: u32 = if prefix < 24 {
        0
    } else {
        prefix - 24
    };
    let mut out: String = text::decimal(leading_ones_byte(prefix));
    out.append(".");
    out.append(text::decimal(leading_ones_byte(b)).as_str());
    out.append(".");
    out.append(text::decimal(leading_ones_byte(c)).as_str());
    out.append(".");
    out.append(text::decimal(leading_ones_byte(d)).as_str());
    out
}

/// The four bytes of a netmask, as one number, have the prefix length as their number of leading
/// one bits and no other bit.
pub proof fn law_netmask_bits(prefix: u32)
    requires
        prefix <= 32,
    ensures
        leading_ones(prefix as int) * 16777216 + leading_ones(prefix - 8) * 65536 + leading_ones(
            prefix - 16,
        ) * 256 + leading_ones(prefix - 24) == if prefix == 0 {
            0u32
        } else {
            0xffff_ffffu32 << ((32 - prefix) as u32)
        },
{
    let s: u32 = (32 - prefix) as u32;
    assert(prefix == 0 || s < 32);
    assert(0xffff_ffffu32 << 0u32 == 0xffff_ffff && 0xffff_ffffu32 << 1u32 == 0xffff_fffe
        && 0xffff_ffffu32 << 2u32 == 0xffff_fffc && 0xffff_ffffu32 << 3u32 == 0xffff_fff8
        && 0xffff_ffffu32 << 4u32 == 0xffff_fff0 && 0xffff_ffffu32 << 5u32 == 0xffff_ffe0
        && 0xffff_ffffu32 << 6u32 == 0xffff_ffc0 && 0xffff_ffffu32 << 7u32 == 0xffff_ff80
        && 0xffff_ffffu32 << 8u32 == 0xffff_ff00 && 0xffff_ffffu32 << 9u32 == 0xffff_fe00
        && 0xffff_ffffu32 << 10u32 == 0xffff_fc00 && 0xffff_ffffu32 << 11u32 == 0xffff_f800
        && 0xffff_ffffu32 << 12u32 == 0xffff_f000 && 0xffff_ffffu32 << 13u32 == 0xffff_e000
        && 0xffff_ffffu32 << 14u32 == 0xffff_c000 && 0xffff_ffffu32 << 15u32 == 0xffff_8000)
        by (bit_vector);
    assert(0xffff_ffffu32 << 16u32 == 0xffff_0000 && 0xffff_ffffu32 << 17u32 == 0xfffe_0000
        && 0xffff_ffffu32 << 18u32 == 0xfffc_0000 && 0xffff_ffffu32 << 19u32 == 0xfff8_0000
        && 0xffff_ffffu32 << 20u32 == 0xfff0_0000 && 0xffff_ffffu32 << 21u32 == 0xffe0_0000
        && 0xffff_ffffu32 << 22u32 == 0xffc0_0000 && 0xffff_ffffu32 << 23u32 == 0xff80_0000
        && 0xffff_ffffu32 << 24u32 == 0xff00_0000 && 0xffff_ffffu32 << 25u32 == 0xfe00_0000
        && 0xffff_ffffu32 << 26u32 == 0xfc00_0000 && 0xffff_ffffu32 << 27u32 == 0xf800_0000
        && 0xffff_ffffu32 << 28u32 == 0xf000_0000 && 0xffff_ffffu32 << 29u32 == 0xe000_0000
        && 0xffff_ffffu32 << 30u32 == 0xc000_0000 && 0xffff_ffffu32 << 31u32 == 0x8000_0000)
        by (bit_vector);
}

/// The prefix length of an address: the number behind the slash, 24 where there is none.
pub open spec fn prefix_of(cidr: Seq<char>) -> nat {
    let parts = text::split(cidr, '/');
    if parts.len() > 1 {
        match text::parsed(parts[1], u32::MAX as nat) {
            Some(n) => n,
            None => 24,
        }
    } else {
        24
    }
}

/// The prefix length of an address.
pub fn cidr_prefix(cidr: &str) -> (res: u32)
    ensures
        res == prefix_of(cidr@),
{
    let parts: Vec<String> = text::split_on(cidr, '/');
    assert(parts@.len() == text::strings(parts@).len());
    if parts.len() > 1 {
        assert(text::strings(parts@)[1] == parts@[1]@);
        match text::parse_up_to(parts[1].as_str(), u32::MAX as u64) {
            Some(n) => n as u32,
            None => 24,
        }
    } else {
        24
    }
}

/// The kernel parameter that gives the guest's `eth0` the pod's address, gateway and netmask.
pub open spec fn ip_parameter(cidr: Seq<char>, gateway: Seq<char>) -> Seq<char> {
    " ip="@ + text::split(cidr, '/')[0] + "::"@ + gateway + ":"@ + netmask(prefix_of(cidr) as int)
        + "::eth0:off"@
}

/// Builds the kernel parameter that configures the guest's network.
pub fn kernel_ip_param(cidr: &str, gateway: &str) -> (res: String)
    requires
        prefix_of(cidr@) <= 32,
    ensures
        res@ == ip_parameter(cidr@, gateway@),
{
    let parts: Vec<String> = text::split_on(cidr, '/');
    proof {
        text::lemma_split_nonempty(cidr@, '/');
        assert(parts@.len() == text::strings(parts@).len());
        assert(text::strings(parts@)[0] == parts@[0]@);
    }
    let mask: String = prefix_to_netmask(cidr_prefix(cidr));
    let mut out: String = text::join3(" ip=", parts[0].as_str(), "::");
    out.append(gateway);
    out.append(":");
    out.append(mask.as_str());
    out.append("::eth0:off");
    out
}

/// The prefix length of an address in the form of an address, a slash and a number is that number,
/// and 24 where there is no slash.
pub proof fn law_prefix_of(ip: Seq<char>, prefix: u32)
    requires
        !ip.contains('/'),
    ensures
        prefix_of(ip.push('/') + text::dec(prefix as nat)) == prefix,
        text::split(ip.push('/') + text::dec(prefix as nat), '/')[0] == ip,
        prefix_of(ip) == 24,
        text::split(ip, '/')[0] == ip,
{
    let n = text::dec(prefix as nat);
    text::law_decimal_round_trip(prefix as u64);
    lemma_digits(prefix as nat);
    text::law_split_plain(ip, '/');
    text::law_split_plain(n, '/');
    text::law_split_at_separator(ip, '/', n);
    let parts = text::split(ip.push('/') + n, '/');
    assert(parts =~= seq![ip, n]);
    assert(parts[1] == n);
}

proof fn lemma_digits(n: nat)
    ensures
        !text::dec(n).contains('/'),
    decreases n,
{
    let d = text::dec(n);
    if n >= 10 {
        lemma_digits(n / 10);
        assert(text::digit(n % 10) != '/');
        if d.contains('/') {
            let k = choose|k: int| 0 <= k < d.len() && d[k] == '/';
            if k < d.len() - 1 {
                assert(text::dec(n / 10)[k] == '/');
            }
        }
    } else {
        assert(text::digit(n) != '/');
    }
}

/// The kernel is told the address, the gateway and the mask that the pod's interface has: the
/// address in front of the slash, the gateway as given, and as many leading ones in the mask as the
/// prefix is long. The VM's one interface gets them, without autoconfiguration.
pub proof fn law_ip_parameter(ip: Seq<char>, prefix: u32, gateway: Seq<char>)
    requires
        !ip.contains('/'),
        prefix <= 32,
    ensures
        ip_parameter(ip.push('/') + text::dec(prefix as nat), gateway) == seq![
            ' ',
            'i',
            'p',
            '=',
        ] + ip + seq![':', ':'] + gateway + seq![':'] + netmask(prefix as int) + seq![
            ':',
            ':',
            'e',
            't',
            'h',
            '0',
            ':',
            'o',
            'f',
            'f',
        ],
{
    law_prefix_of(ip, prefix);
    reveal_strlit(" ip=");
    reveal_strlit("::");
    reveal_strlit(":");
    reveal_strlit("::eth0:off");
    assert(" ip="@ =~= seq![' ', 'i', 'p', '=']);
    assert("::"@ =~= seq![':', ':']);
    assert(":"@ =~= seq![':']);
    assert("::eth0:off"@ =~= seq![':', ':', 'e', 't', 'h', '0', ':', 'o', 'f', 'f']);
}

/// A mask is four numbers with dots between them.
pub proof fn law_netmask_is_dotted(prefix: int)
    ensures
        netmask(prefix) == text::dec(leading_ones(prefix)) + seq!['.'] + text::dec(
            leading_ones(prefix - 8),
        ) + seq!['.'] + text::dec(leading_ones(prefix - 16)) + seq!['.'] + text::dec(
            leading_ones(prefix - 24),
        ),
{
    reveal_strlit(".");
    assert("."@ =~= seq!['.']);
}

} // verus!
