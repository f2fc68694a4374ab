//! Stable hashes for cache keys and volume names.

use crate::text;
use vstd::prelude::*;

verus! {

pub const FNV_OFFSET: u128 = 0x6c62272e07bb014262b821756295c58d;

pub const FNV_PRIME: u128 = 0x0000000001000000000000000000013b;

/// The 128-bit FNV-1a hash of some bytes.
pub open spec fn fnv1a(b: Seq<u8>) -> u128
    decreases b.len(),
{
    if b.len() == 0 {
        FNV_OFFSET
    } else {
        (fnv1a(b.drop_last()) ^ (b.last() as u128)).wrapping_mul(FNV_PRIME)
    }
}

/// The hash of a text in 32 hexadecimal digits.
pub open spec fn stable_hash(s: Seq<char>) -> Seq<char> {
    text::hex(fnv1a(text::bytes(s)) as nat, 32)
}

/// A stable 128-bit hash of a text, in hexadecimal.
pub fn stable_hash_hex(input: &str) -> (res: String)
    ensures
        res@ == stable_hash(input@),
{
    let b: &[u8] = input.as_bytes();
    let mut hash: u128 = FNV_OFFSET;
    let mut i: usize = 0;
    assert(b@.take(0) =~= Seq::<u8>::empty());
    while i < b.len()
        invariant
            i <= b@.len(),
            hash == fnv1a(b@.take(i as int)),
        decreases b@.len() - i,
    {
        assert(b@.take(i + 1).drop_last() =~= b@.take(i as int));
        hash = (hash ^ (b[i] as u128)).wrapping_mul(FNV_PRIME);
        i += 1;
    }
    assert(b@.take(b@.len() as int) =~= b@);
    text::hexadecimal(hash, 32)
}

/// The 64-bit djb2 hash of some bytes.
pub open spec fn djb2(b: Seq<u8>) -> u64
    decreases b.len(),
{
    if b.len() == 0 {
        5381
    } else {
        djb2(b.drop_last()).wrapping_mul(33).wrapping_add(b.last() as u64)
    }
}

/// `n` in hexadecimal, without leading zeros.
pub open spec fn hex_short(n: nat) -> Seq<char>
    decreases n,
{
    if n < 16 {
        seq![text::digit(n)]
    } else {
        hex_short(n / 16).push(text::digit(n % 16))
    }
}

/// Writes `n` in hexadecimal, without leading zeros.
pub fn hexadecimal_short(n: u64) -> (res: String)
    ensures
        res@ == hex_short(n as nat),
    decreases n,
{
    let mut out: String = if n < 16 {
        String::new()
    } else {
        hexadecimal_short(n / 16)
    };
    out.push(text::digit_char((n % 16) as u8));
    assert(n < 16 ==> out@ =~= seq![text::digit(n as nat)]);
    out
}

/// The name of the volume that is mounted at a destination.
pub open spec fn volume_id(dest: Seq<char>) -> Seq<char> {
    hex_short(djb2(text::bytes(dest)) as nat)
}

/// A short stable name for the volume that is mounted at a destination.
pub fn volume_id_for(dest: &str) -> (res: String)
    ensures
        res@ == volume_id(dest@),
{
    let b: &[u8] = dest.as_bytes();
    let mut h: u64 = 5381;
    let mut i: usize = 0;
    assert(b@.take(0) =~= Seq::<u8>::empty());
    while i < b.len()
        invariant
            i <= b@.len(),
            h == djb2(b@.take(i as int)),
        decreases b@.len() - i,
    {
        assert(b@.take(i + 1).drop_last() =~= b@.take(i as int));
        h = h.wrapping_mul(33).wrapping_add(b[i] as u64);
        i += 1;
    }
    assert(b@.take(b@.len() as int) =~= b@);
    hexadecimal_short(h)
}

/// A volume's name is ASCII: any of its first bytes are whole characters.
pub proof fn lemma_volume_id_ascii(dest: Seq<char>, n: int)
    requires
        0 <= n,
    ensures
        text::head_is_whole(volume_id(dest), n),
        text::head_of(volume_id(dest), n) == volume_id(dest).take(
            text::lesser(n, volume_id(dest).len() as int),
        ),
{
    lemma_hex_short_ascii(djb2(text::bytes(dest)) as nat);
    text::lemma_head_ascii(volume_id(dest), n);
}

proof fn lemma_hex_short_ascii(n: nat)
    ensures
        vstd::utf8::is_ascii_chars(hex_short(n)),
    decreases n,
{
    if n >= 16 {
        lemma_hex_short_ascii(n / 16);
    }
}

/// A hash always has 32 digits.
pub proof fn law_hash_has_32_digits(s: Seq<char>)
    ensures
        stable_hash(s).len() == 32,
{
    lemma_hex_len(fnv1a(text::bytes(s)) as nat, 32);
}

proof fn lemma_hex_len(n: nat, width: nat)
    ensures
        text::hex(n, width).len() == width,
    decreases width,
{
    if width > 0 {
        lemma_hex_len(n / 16, (width - 1) as nat);
    }
}

/// The hash of some bytes takes each byte in, in order: by exclusive or, and a multiplication by the
/// prime of the 128-bit variant.
pub proof fn law_fnv1a_takes_bytes_in(b: Seq<u8>, x: u8)
    ensures
        fnv1a(Seq::<u8>::empty()) == 0x6c62272e07bb014262b821756295c58d,
        fnv1a(b.push(x)) == (fnv1a(b) ^ (x as u128)).wrapping_mul(0x1000000000000000000013b),
{
    assert(b.push(x).drop_last() =~= b);
}

/// The name of a volume takes each byte of the destination in, in order, and is written without
/// leading zeros: its digits denote the number again.
pub proof fn law_volume_id(b: Seq<u8>, x: u8, n: nat)
    ensures
        djb2(Seq::<u8>::empty()) == 5381,
        djb2(b.push(x)) == djb2(b).wrapping_mul(33).wrapping_add(x as u64),
        text::hex_value(hex_short(n)) == n,
        hex_short(n).len() > 0,
        n > 0 ==> hex_short(n)[0] != '0',
    decreases n,
{
    assert(b.push(x).drop_last() =~= b);
    reveal_with_fuel(text::hex_value, 2);
    if n >= 16 {
        law_volume_id(b, x, n / 16);
        let h = hex_short(n);
        assert(h.drop_last() =~= hex_short(n / 16));
        assert(text::digit_value(text::digit(n % 16)) == n % 16);
    } else {
        assert(hex_short(n).drop_last() =~= Seq::<char>::empty());
        assert(text::digit_value(text::digit(n)) == n);
    }
}

/// A hash is written in its 32 digits: they denote it again.
pub proof fn law_hash_reads_back(s: Seq<char>)
    ensures
        text::hex_value(stable_hash(s)) == fnv1a(text::bytes(s)),
{
    let n = fnv1a(text::bytes(s)) as nat;
    lemma_pow_16_32();
    text::law_hex_reads_back(n, 32);
}

proof fn lemma_pow_16_32()
    ensures
        vstd::arithmetic::power::pow(16, 32) == 0x1_0000_0000_0000_0000_0000_0000_0000_0000int,
{
    let p1 = vstd::arithmetic::power::pow(16, 1);
    let p2 = vstd::arithmetic::power::pow(16, 2);
    let p4 = vstd::arithmetic::power::pow(16, 4);
    let p8 = vstd::arithmetic::power::pow(16, 8);
    let p16 = vstd::arithmetic::power::pow(16, 16);
    vstd::arithmetic::power::lemma_pow1(16);
    vstd::arithmetic::power::lemma_pow_adds(16, 1, 1);
    vstd::arithmetic::power::lemma_pow_adds(16, 2, 2);
    vstd::arithmetic::power::lemma_pow_adds(16, 4, 4);
    vstd::arithmetic::power::lemma_pow_adds(16, 8, 8);
    vstd::arithmetic::power::lemma_pow_adds(16, 16, 16);
    assert(p1 * p1 == 0x100) by (nonlinear_arith)
        requires
            p1 == 16,
    ;
    assert(p2 * p2 == 0x1_0000) by (nonlinear_arith)
        requires
            p2 == 0x100,
    ;
    assert(p4 * p4 == 0x1_0000_0000) by (nonlinear_arith)
        requires
            p4 == 0x1_0000,
    ;
    assert(p8 * p8 == 0x1_0000_0000_0000_0000int) by (nonlinear_arith)
        requires
            p8 == 0x1_0000_0000,
    ;
    assert(p16 * p16 == 0x1_0000_0000_0000_0000_0000_0000_0000_0000int) by (nonlinear_arith)
        requires
            p16 == 0x1_0000_0000_0000_0000int,
    ;
}

} // verus!
