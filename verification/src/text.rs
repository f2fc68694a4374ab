//! Text as sequences of characters: the string operations the rest of the crate is built on.
//!
//! Specifications speak of `Seq<char>`, the view of both `str` and `String`.

use vstd::hash_map::StringHashMap;
use vstd::prelude::*;

verus! {

/// `String::push` appends one character to the end of the string.
pub assume_specification[ String::push ](s: &mut String, c: char)
    ensures
        final(s)@ == old(s)@.push(c),
;

/// What bytes are as text, with replacement characters where they are not UTF-8.
pub uninterp spec fn lossy(bytes: Seq<u8>) -> Seq<char>;

/// `String::from_utf8_lossy`: the text depends on the bytes alone, and bytes that are UTF-8 are
/// taken as they are.
#[verifier::external_body]
pub(crate) fn from_utf8_lossy(bytes: &[u8]) -> (res: String)
    ensures
        res@ == lossy(bytes@),
        vstd::utf8::valid_utf8(bytes@) ==> res@ == vstd::utf8::decode_utf8(bytes@),
{
    String::from_utf8_lossy(bytes).into_owned()
}

/// The UTF-8 bytes of a text.
pub open spec fn bytes(s: Seq<char>) -> Seq<u8> {
    vstd::utf8::encode_utf8(s)
}

/// The contents of a sequence of strings.
pub open spec fn strings(v: Seq<String>) -> Seq<Seq<char>> {
    Seq::new(v.len(), |i: int| v[i]@)
}

/// The characters of an optional string slice.
pub open spec fn opt_str(s: Option<&str>) -> Option<Seq<char>> {
    match s {
        Some(t) => Some(t@),
        None => None,
    }
}

/// The characters of an optional string.
pub open spec fn opt_string(s: Option<String>) -> Option<Seq<char>> {
    match s {
        Some(t) => Some(t@),
        None => None,
    }
}

/// Copies the characters of `s`.
pub fn to_chars(s: &str) -> (res: Vec<char>)
    ensures
        res@ == s@,
{
    let mut out: Vec<char> = Vec::new();
    for c in iter: s.chars()
        invariant
            out@ == iter.seq().take(iter.index() as int),
            iter.seq() == s@,
    {
        out.push(c);
    }
    out
}

/// The characters of `v` from `from` up to `to`, as a string.
pub fn from_chars(v: &Vec<char>, from: usize, to: usize) -> (res: String)
    requires
        from <= to <= v@.len(),
    ensures
        res@ == v@.subrange(from as int, to as int),
{
    let mut out: String = String::new();
    let mut i: usize = from;
    while i < to
        invariant
            from <= i <= to <= v@.len(),
            out@ == v@.subrange(from as int, i as int),
        decreases to - i,
    {
        out.push(v[i]);
        proof {
            assert(v@.subrange(from as int, i as int).push(v@[i as int]) =~= v@.subrange(
                from as int,
                i + 1,
            ));
        }
        i += 1;
    }
    out
}

/// Whether two strings hold the same characters.
pub fn same(a: &str, b: &str) -> (res: bool)
    ensures
        res == (a@ == b@),
{
    let x: Vec<char> = to_chars(a);
    let y: Vec<char> = to_chars(b);
    if x.len() != y.len() {
        return false;
    }
    let mut i: usize = 0;
    while i < x.len()
        invariant
            i <= x@.len(),
            x@.len() == y@.len(),
            x@ == a@,
            y@ == b@,
            forall|j: int| 0 <= j < i ==> x@[j] == y@[j],
        decreases x@.len() - i,
    {
        if x[i] != y[i] {
            assert(a@[i as int] != b@[i as int]);
            return false;
        }
        i += 1;
    }
    assert(a@ =~= b@);
    true
}

/// Whether `p` occurs in `s` at position `at`.
pub open spec fn occurs_at(s: Seq<char>, p: Seq<char>, at: int) -> bool {
    0 <= at && at + p.len() <= s.len() && s.subrange(at, at + p.len()) == p
}

/// Whether `p` is the beginning of `s`.
pub open spec fn has_prefix(s: Seq<char>, p: Seq<char>) -> bool {
    occurs_at(s, p, 0)
}

/// Whether `p` is the end of `s`.
pub open spec fn has_suffix(s: Seq<char>, p: Seq<char>) -> bool {
    occurs_at(s, p, s.len() - p.len())
}

/// Whether `p` occurs anywhere in `s`.
pub open spec fn has_substring(s: Seq<char>, p: Seq<char>) -> bool {
    exists|at: int| #[trigger] occurs_at(s, p, at)
}

/// Decides [`occurs_at`].
pub fn matches_at(s: &Vec<char>, p: &Vec<char>, at: usize) -> (res: bool)
    ensures
        res == occurs_at(s@, p@, at as int),
{
    if at > s.len() || s.len() - at < p.len() {
        return false;
    }
    let mut i: usize = 0;
    while i < p.len()
        invariant
            i <= p@.len(),
            at + p@.len() <= s.len(),
            forall|j: int| 0 <= j < i ==> s@[at + j] == p@[j],
        decreases p@.len() - i,
    {
        if s[at + i] != p[i] {
            assert(s@.subrange(at as int, at + p@.len())[i as int] != p@[i as int]);
            return false;
        }
        i += 1;
    }
    assert(s@.subrange(at as int, at + p@.len()) =~= p@);
    true
}

/// Whether `s` begins with `p`.
pub fn starts_with(s: &str, p: &str) -> (res: bool)
    ensures
        res == has_prefix(s@, p@),
{
    let x: Vec<char> = to_chars(s);
    let y: Vec<char> = to_chars(p);
    matches_at(&x, &y, 0)
}

/// The first position at which `p` occurs in `s`, from position `from` on.
pub fn find_from(s: &Vec<char>, p: &Vec<char>, from: usize) -> (res: Option<usize>)
    ensures
        match res {
            Some(at) => from <= at && occurs_at(s@, p@, at as int) && forall|k: int|
                from <= k < at ==> !#[trigger] occurs_at(s@, p@, k),
            None => forall|k: int| from <= k ==> !#[trigger] occurs_at(s@, p@, k),
        },
{
    let mut i: usize = from;
    while i <= s.len()
        invariant
            from <= i,
            forall|k: int| from <= k < i ==> !#[trigger] occurs_at(s@, p@, k),
        decreases s@.len() + 1 - i,
    {
        if matches_at(s, p, i) {
            return Some(i);
        }
        if i == s.len() {
            return None;
        }
        i += 1;
    }
    None
}

/// Whether `p` occurs in `s`.
pub fn contains(s: &str, p: &str) -> (res: bool)
    ensures
        res == has_substring(s@, p@),
{
    let x: Vec<char> = to_chars(s);
    let y: Vec<char> = to_chars(p);
    match find_from(&x, &y, 0) {
        Some(at) => {
            assert(occurs_at(s@, p@, at as int));
            true
        },
        None => {
            assert forall|at: int| !#[trigger] occurs_at(s@, p@, at) by {
                if at >= 0 {
                    assert(!occurs_at(x@, y@, at));
                }
            }
            false
        },
    }
}

/// What follows `p` in `s`, where `s` begins with `p`.
pub fn strip_prefix(s: &str, p: &str) -> (res: Option<String>)
    ensures
        match res {
            Some(rest) => has_prefix(s@, p@) && rest@ == s@.skip(p@.len() as int),
            None => !has_prefix(s@, p@),
        },
{
    let x: Vec<char> = to_chars(s);
    let y: Vec<char> = to_chars(p);
    if matches_at(&x, &y, 0) {
        let n: usize = y.len();
        let rest: String = from_chars(&x, n, x.len());
        assert(rest@ =~= s@.skip(p@.len() as int));
        Some(rest)
    } else {
        None
    }
}

/// `a` followed by `b`.
pub fn join2(a: &str, b: &str) -> (res: String)
    ensures
        res@ == a@ + b@,
{
    let mut out: String = a.to_owned();
    out.append(b);
    out
}

/// `a`, `b` and `c`, one after the other.
pub fn join3(a: &str, b: &str, c: &str) -> (res: String)
    ensures
        res@ == a@ + b@ + c@,
{
    let mut out: String = join2(a, b);
    out.append(c);
    out
}

/// The pieces of `s` between occurrences of `c`: always at least one piece.
pub open spec fn split(s: Seq<char>, c: char) -> Seq<Seq<char>>
    decreases s.len(),
{
    if s.len() == 0 {
        seq![Seq::empty()]
    } else {
        let before = split(s.drop_last(), c);
        if s.last() == c {
            before.push(Seq::empty())
        } else {
            before.drop_last().push(before.last().push(s.last()))
        }
    }
}

/// A split has at least one piece.
pub proof fn lemma_split_nonempty(s: Seq<char>, c: char)
    ensures
        split(s, c).len() >= 1,
    decreases s.len(),
{
    if s.len() > 0 {
        lemma_split_nonempty(s.drop_last(), c);
    }
}

/// Splits `s` at each `c`.
pub fn split_on(s: &str, c: char) -> (res: Vec<String>)
    ensures
        strings(res@) == split(s@, c),
{
    let x: Vec<char> = to_chars(s);
    let mut done: Vec<String> = Vec::new();
    let mut cur: String = String::new();
    let mut i: usize = 0;
    assert(x@.take(0) =~= Seq::<char>::empty());
    while i < x.len()
        invariant
            i <= x@.len(),
            strings(done@).push(cur@) =~= split(x@.take(i as int), c),
        decreases x@.len() - i,
    {
        let ch: char = x[i];
        proof {
            assert(x@.take(i + 1).drop_last() =~= x@.take(i as int));
            lemma_split_nonempty(x@.take(i as int), c);
            assert(split(x@.take(i as int), c).drop_last() =~= strings(done@));
            assert(split(x@.take(i as int), c).last() == cur@);
        }
        if ch == c {
            let ghost before = done@;
            done.push(cur);
            cur = String::new();
            assert(strings(done@) =~= split(x@.take(i as int), c));
        } else {
            cur.push(ch);
        }
        i += 1;
    }
    assert(x@.take(x@.len() as int) =~= s@);
    let ghost before = done@;
    done.push(cur);
    assert(strings(done@) =~= strings(before).push(cur@));
    done
}

/// `s` without one trailing carriage return.
pub open spec fn without_cr(s: Seq<char>) -> Seq<char> {
    if s.len() > 0 && s.last() == '\r' {
        s.drop_last()
    } else {
        s
    }
}

/// The lines of `s`, without their terminators: a line ends with a line feed, or a carriage
/// return and a line feed; what follows the last terminator counts only when it is not empty.
pub open spec fn lines(s: Seq<char>) -> Seq<Seq<char>> {
    let p = split(s, '\n');
    let ended = Seq::new((p.len() - 1) as nat, |i: int| without_cr(p[i]));
    if p.last().len() == 0 {
        ended
    } else {
        ended.push(p.last())
    }
}

/// The lines of `s`.
pub fn lines_of(s: &str) -> (res: Vec<String>)
    ensures
        strings(res@) == lines(s@),
{
    let p: Vec<String> = split_on(s, '\n');
    proof {
        lemma_split_nonempty(s@, '\n');
        assert(p@.len() == strings(p@).len());
    }
    let n: usize = p.len() - 1;
    let mut out: Vec<String> = Vec::new();
    let mut i: usize = 0;
    while i < n
        invariant
            i <= n,
            n == p@.len() - 1,
            out@.len() == i,
            forall|j: int| 0 <= j < i ==> (#[trigger] out@[j])@ == without_cr(p@[j]@),
        decreases n - i,
    {
        let x: Vec<char> = to_chars(p[i].as_str());
        if x.len() > 0 && x[x.len() - 1] == '\r' {
            let line: String = from_chars(&x, 0, x.len() - 1);
            assert(line@ =~= without_cr(p@[i as int]@));
            out.push(line);
        } else {
            out.push(p[i].clone());
        }
        i += 1;
    }
    let ghost ended = strings(out@);
    assert(ended =~= Seq::new((split(s@, '\n').len() - 1) as nat, |i: int| without_cr(split(s@, '\n')[i]))) by {
        assert forall|j: int| 0 <= j < n implies ended[j] == without_cr(split(s@, '\n')[j]) by {
            assert(strings(p@)[j] == p@[j]@);
            assert(out@[j]@ == without_cr(p@[j]@));
        }
    }
    assert(strings(p@)[n as int] == p@[n as int]@);
    if !p[n].as_str().is_empty() {
        out.push(p[n].clone());
        assert(strings(out@) =~= ended.push(p@[n as int]@));
    }
    out
}

/// Whether `c` has the Unicode property `White_Space`.
pub open spec fn white(c: char) -> bool {
    ||| '\u{9}' <= c <= '\u{d}'
    ||| c == ' '
    ||| c == '\u{85}'
    ||| c == '\u{a0}'
    ||| c == '\u{1680}'
    ||| '\u{2000}' <= c <= '\u{200a}'
    ||| c == '\u{2028}'
    ||| c == '\u{2029}'
    ||| c == '\u{202f}'
    ||| c == '\u{205f}'
    ||| c == '\u{3000}'
}

/// Decides [`white`].
pub fn is_white(c: char) -> (res: bool)
    ensures
        res == white(c),
{
    ('\u{9}' <= c && c <= '\u{d}') || c == ' ' || c == '\u{85}' || c == '\u{a0}' || c == '\u{1680}' || (
    '\u{2000}' <= c && c <= '\u{200a}') || c == '\u{2028}' || c == '\u{2029}' || c == '\u{202f}' || c
        == '\u{205f}' || c == '\u{3000}'
}

/// The maximal runs of characters in `s` that are not white space, in order.
pub open spec fn words(s: Seq<char>) -> Seq<Seq<char>>
    decreases s.len(),
{
    if s.len() == 0 {
        Seq::empty()
    } else {
        let rest = s.drop_last();
        let before = words(rest);
        if white(s.last()) {
            before
        } else if rest.len() == 0 || white(rest.last()) {
            before.push(seq![s.last()])
        } else {
            before.drop_last().push(before.last().push(s.last()))
        }
    }
}

/// The words of `s`.
pub fn words_of(s: &str) -> (res: Vec<String>)
    ensures
        strings(res@) == words(s@),
{
    let x: Vec<char> = to_chars(s);
    let mut done: Vec<String> = Vec::new();
    let mut cur: String = String::new();
    let mut open: bool = false;
    let mut i: usize = 0;
    assert(x@.take(0) =~= Seq::<char>::empty());
    while i < x.len()
        invariant
            i <= x@.len(),
            open == (i > 0 && !white(x@[i - 1])),
            words(x@.take(i as int)) =~= if open {
                strings(done@).push(cur@)
            } else {
                strings(done@)
            },
            !open ==> cur@.len() == 0,
        decreases x@.len() - i,
    {
        let ch: char = x[i];
        let ghost was = words(x@.take(i as int));
        proof {
            assert(x@.take(i + 1).drop_last() =~= x@.take(i as int));
            assert(x@.take(i + 1).last() == ch);
            if i > 0 {
                assert(x@.take(i as int).last() == x@[i - 1]);
            }
            if open {
                assert(was.drop_last() =~= strings(done@));
                assert(was.last() == cur@);
            }
        }
        if is_white(ch) {
            if open {
                done.push(cur);
                cur = String::new();
                assert(strings(done@) =~= was);
            }
            open = false;
        } else {
            cur.push(ch);
            proof {
                if !open {
                    assert(cur@ =~= seq![ch]);
                }
            }
            open = true;
        }
        i += 1;
    }
    assert(x@.take(x@.len() as int) =~= s@);
    if open {
        let ghost before = done@;
        done.push(cur);
        assert(strings(done@) =~= strings(before).push(cur@));
    }
    done
}

/// `s` without the white space at its beginning.
pub open spec fn trim_start(s: Seq<char>) -> Seq<char>
    decreases s.len(),
{
    if s.len() > 0 && white(s[0]) {
        trim_start(s.skip(1))
    } else {
        s
    }
}

/// `s` without the white space at its end.
pub open spec fn trim_end(s: Seq<char>) -> Seq<char>
    decreases s.len(),
{
    if s.len() > 0 && white(s.last()) {
        trim_end(s.drop_last())
    } else {
        s
    }
}

/// `s` without the white space at its two ends.
pub open spec fn trimmed(s: Seq<char>) -> Seq<char> {
    trim_end(trim_start(s))
}

/// `s` without the white space at its two ends.
pub fn trim(s: &str) -> (res: String)
    ensures
        res@ == trimmed(s@),
{
    let x: Vec<char> = to_chars(s);
    let mut i: usize = 0;
    assert(x@.skip(0) =~= x@);
    while i < x.len() && is_white(x[i])
        invariant
            i <= x@.len(),
            trim_start(s@) == trim_start(x@.skip(i as int)),
        decreases x@.len() - i,
    {
        assert(x@.skip(i as int).skip(1) =~= x@.skip(i + 1));
        i += 1;
    }
    let mut j: usize = x.len();
    assert(x@.skip(i as int) =~= x@.subrange(i as int, j as int));
    while j > i && is_white(x[j - 1])
        invariant
            i <= j <= x@.len(),
            trimmed(s@) == trim_end(x@.subrange(i as int, j as int)),
        decreases j,
    {
        assert(x@.subrange(i as int, j as int).drop_last() =~= x@.subrange(i as int, j - 1));
        j -= 1;
    }
    from_chars(&x, i, j)
}

/// The character for the digit `d`, in bases up to 16.
pub open spec fn digit(d: nat) -> char {
    if d < 10 {
        (48 + d) as char
    } else {
        (87 + d) as char
    }
}

/// `n` in decimal notation.
pub open spec fn dec(n: nat) -> Seq<char>
    decreases n,
{
    if n < 10 {
        seq![digit(n)]
    } else {
        dec(n / 10).push(digit(n % 10))
    }
}

/// The last `width` hexadecimal digits of `n`, in lower case.
pub open spec fn hex(n: nat, width: nat) -> Seq<char>
    decreases width,
{
    if width == 0 {
        Seq::empty()
    } else {
        hex(n / 16, (width - 1) as nat).push(digit(n % 16))
    }
}

/// The character for the digit `d`.
pub fn digit_char(d: u8) -> (res: char)
    requires
        d < 16,
    ensures
        res == digit(d as nat),
{
    if d < 10 {
        (48 + d) as char
    } else {
        (87 + d) as char
    }
}

/// Writes `n` in decimal.
pub fn decimal(n: u64) -> (res: String)
    ensures
        res@ == dec(n as nat),
    decreases n,
{
    let mut out: String = if n < 10 {
        String::new()
    } else {
        decimal(n / 10)
    };
    out.push(digit_char((n % 10) as u8));
    assert(n < 10 ==> out@ =~= seq![digit(n as nat)]);
    out
}

/// Writes the last `width` hexadecimal digits of `n`.
pub fn hexadecimal(n: u128, width: usize) -> (res: String)
    ensures
        res@ == hex(n as nat, width as nat),
    decreases width,
{
    if width == 0 {
        String::new()
    } else {
        let mut out: String = hexadecimal(n / 16, width - 1);
        out.push(digit_char((n % 16) as u8));
        out
    }
}

/// Whether `c` is an ASCII digit.
pub open spec fn is_digit(c: char) -> bool {
    '0' <= c <= '9'
}

/// The number that a sequence of decimal digits denotes.
pub open spec fn number(s: Seq<char>) -> nat
    decreases s.len(),
{
    if s.len() == 0 {
        0
    } else {
        (number(s.drop_last()) * 10 + (s.last() as nat - 48)) as nat
    }
}

/// `s` without one leading plus sign.
pub open spec fn unsigned_part(s: Seq<char>) -> Seq<char> {
    if s.len() > 0 && s[0] == '+' {
        s.skip(1)
    } else {
        s
    }
}

/// The number up to `max` that `s` denotes: an optional plus sign and at least one digit.
pub open spec fn parsed(s: Seq<char>, max: nat) -> Option<nat> {
    let d = unsigned_part(s);
    if d.len() > 0 && (forall|i: int| 0 <= i < d.len() ==> is_digit(#[trigger] d[i])) && number(d)
        <= max {
        Some(number(d))
    } else {
        None
    }
}

/// The number never shrinks as digits follow.
proof fn lemma_number_grows(s: Seq<char>, k: int)
    requires
        0 <= k <= s.len(),
        forall|i: int| 0 <= i < s.len() ==> is_digit(#[trigger] s[i]),
    ensures
        number(s.take(k)) <= number(s),
    decreases s.len(),
{
    if k == s.len() {
        assert(s.take(k) =~= s);
    } else {
        assert(s.drop_last().take(k) =~= s.take(k));
        lemma_number_grows(s.drop_last(), k);
        assert(is_digit(s[s.len() - 1]));
    }
}

/// Reads a number up to `max` as the standard library's `parse` does.
pub fn parse_up_to(s: &str, max: u64) -> (res: Option<u64>)
    ensures
        res == match parsed(s@, max as nat) {
            Some(n) => Some(n as u64),
            None => None::<u64>,
        },
        parsed(s@, max as nat) matches Some(n) ==> n <= max,
{
    let x: Vec<char> = to_chars(s);
    let start: usize = if x.len() > 0 && x[0] == '+' {
        1
    } else {
        0
    };
    let ghost d = unsigned_part(s@);
    assert(d =~= x@.skip(start as int));
    if x.len() == start {
        return None;
    }
    let mut n: u64 = 0;
    let mut i: usize = start;
    assert(d.take(0) =~= Seq::<char>::empty());
    while i < x.len()
        invariant
            start <= i <= x@.len(),
            d =~= x@.skip(start as int),
            d == unsigned_part(s@),
            n == number(d.take(i - start)),
            n <= max,
            forall|j: int| 0 <= j < i - start ==> is_digit(#[trigger] d[j]),
        decreases x@.len() - i,
    {
        let c: char = x[i];
        assert(d[i - start] == c);
        if c < '0' || c > '9' {
            return None;
        }
        let v: u64 = (c as u32 - 48) as u64;
        proof {
            assert(d.take(i - start + 1).drop_last() =~= d.take(i - start));
            assert(d.take(i - start + 1).last() == c);
            assert(number(d.take(i - start + 1)) == n * 10 + v);
        }
        if n > (u64::MAX - v) / 10 || n * 10 + v > max {
            proof {
                if forall|j: int| 0 <= j < d.len() ==> is_digit(#[trigger] d[j]) {
                    lemma_number_grows(d, i - start + 1);
                }
            }
            return None;
        }
        n = n * 10 + v;
        i += 1;
    }
    assert(d.take(x@.len() - start) =~= d);
    Some(n)
}

/// Every character of a decimal numeral is a digit, and the numeral denotes its number.
pub proof fn lemma_dec_number(n: nat)
    ensures
        dec(n).len() > 0,
        forall|i: int| 0 <= i < dec(n).len() ==> is_digit(#[trigger] dec(n)[i]),
        number(dec(n)) == n,
    decreases n,
{
    reveal_with_fuel(number, 2);
    if n < 10 {
        assert(dec(n).drop_last() =~= Seq::<char>::empty());
        assert(dec(n).last() == digit(n));
    } else {
        lemma_dec_number(n / 10);
        assert(dec(n).drop_last() =~= dec(n / 10));
        assert(dec(n).last() == digit(n % 10));
    }
}

/// Reading back a written number gives the number.
pub proof fn law_decimal_round_trip(n: u64)
    ensures
        parsed(dec(n as nat), u64::MAX as nat) == Some(n as nat),
{
    lemma_dec_number(n as nat);
    assert(is_digit(dec(n as nat)[0]));
}

/// `s` with each `c` replaced by `with`.
pub open spec fn replaced(s: Seq<char>, c: char, with: Seq<char>) -> Seq<char>
    decreases s.len(),
{
    if s.len() == 0 {
        Seq::empty()
    } else if s.last() == c {
        replaced(s.drop_last(), c, with) + with
    } else {
        replaced(s.drop_last(), c, with).push(s.last())
    }
}

/// Replaces each `c` in `s` by `with`.
pub fn replace(s: &str, c: char, with: &str) -> (res: String)
    ensures
        res@ == replaced(s@, c, with@),
{
    let x: Vec<char> = to_chars(s);
    let mut out: String = String::new();
    let mut i: usize = 0;
    assert(x@.take(0) =~= Seq::<char>::empty());
    while i < x.len()
        invariant
            i <= x@.len(),
            out@ == replaced(x@.take(i as int), c, with@),
        decreases x@.len() - i,
    {
        assert(x@.take(i + 1).drop_last() =~= x@.take(i as int));
        if x[i] == c {
            out.append(with);
        } else {
            out.push(x[i]);
        }
        i += 1;
    }
    assert(x@.take(x@.len() as int) =~= s@);
    out
}

/// The pieces of `v`, with `sep` between each two.
pub open spec fn joined(v: Seq<Seq<char>>, sep: Seq<char>) -> Seq<char>
    decreases v.len(),
{
    if v.len() == 0 {
        Seq::empty()
    } else if v.len() == 1 {
        v[0]
    } else {
        joined(v.drop_last(), sep) + sep + v.last()
    }
}

/// Joins `v` with `sep`.
pub fn join(v: &Vec<String>, sep: &str) -> (res: String)
    ensures
        res@ == joined(strings(v@), sep@),
{
    let mut out: String = String::new();
    let mut i: usize = 0;
    let ghost p = strings(v@);
    assert(p.take(0) =~= Seq::<Seq<char>>::empty());
    while i < v.len()
        invariant
            i <= v@.len(),
            p == strings(v@),
            out@ == joined(p.take(i as int), sep@),
        decreases v@.len() - i,
    {
        assert(p.take(i + 1).drop_last() =~= p.take(i as int));
        assert(p.take(i + 1).last() == v@[i as int]@);
        if i > 0 {
            out.append(sep);
        }
        out.append(v[i].as_str());
        assert(i == 0 ==> out@ =~= v@[0]@);
        i += 1;
    }
    assert(p.take(v@.len() as int) =~= p);
    out
}

/// The contents of string slices.
pub open spec fn strs(v: Seq<&str>) -> Seq<Seq<char>> {
    Seq::new(v.len(), |i: int| v[i]@)
}

/// Copies string slices.
pub fn owned(v: &[&str]) -> (res: Vec<String>)
    ensures
        strings(res@) == strs(v@),
{
    let mut out: Vec<String> = Vec::new();
    let mut i: usize = 0;
    while i < v.len()
        invariant
            i <= v@.len(),
            out@.len() == i,
            forall|j: int| 0 <= j < i ==> (#[trigger] out@[j])@ == v@[j]@,
        decreases v@.len() - i,
    {
        out.push(v[i].to_owned());
        i += 1;
    }
    assert(strings(out@) =~= strs(v@));
    out
}

/// The smaller of two numbers.
pub open spec fn lesser(a: int, b: int) -> int {
    if a < b {
        a
    } else {
        b
    }
}

/// Whether the first `n` bytes of `s`, or all where it has fewer, are whole characters.
pub open spec fn head_is_whole(s: Seq<char>, n: int) -> bool {
    vstd::utf8::is_char_boundary(bytes(s), lesser(n, bytes(s).len() as int))
}

/// A table from texts to texts with nothing in it.
pub fn empty_table() -> (res: StringHashMap<String>)
    ensures
        res@ == Map::<Seq<char>, String>::empty(),
{
    StringHashMap::new()
}

/// Copies a list of texts.
pub fn copied(v: &Vec<String>) -> (res: Vec<String>)
    ensures
        strings(res@) == strings(v@),
{
    let mut out: Vec<String> = Vec::new();
    let mut i: usize = 0;
    while i < v.len()
        invariant
            i <= v@.len(),
            out@.len() == i,
            forall|k: int| 0 <= k < i ==> (#[trigger] out@[k])@ == v@[k]@,
        decreases v@.len() - i,
    {
        out.push(v[i].clone());
        i += 1;
    }
    assert(strings(out@) =~= strings(v@));
    out
}

/// The first `n` bytes of `s`, or all where it has fewer.
pub open spec fn head_of(s: Seq<char>, n: int) -> Seq<char> {
    vstd::utf8::decode_utf8(bytes(s).take(lesser(n, bytes(s).len() as int)))
}

/// The first `n` bytes of `s`, or all where it has fewer.
pub fn head(s: &str, n: usize) -> (res: &str)
    requires
        head_is_whole(s@, n as int),
    ensures
        res@ == head_of(s@, n as int),
{
    let len: usize = s.as_bytes().len();
    let k: usize = if len < n {
        len
    } else {
        n
    };
    let (a, _) = s.split_at(k);
    proof {
        vstd::utf8::encode_utf8_decode_utf8(a@);
        assert(bytes(s@).take(k as int) =~= bytes(s@).subrange(0, k as int));
    }
    a
}

/// The first bytes of an ASCII text are whole characters: its first characters.
pub proof fn lemma_head_ascii(s: Seq<char>, n: int)
    requires
        vstd::utf8::is_ascii_chars(s),
        0 <= n,
    ensures
        head_is_whole(s, n),
        head_of(s, n) == s.take(lesser(n, s.len() as int)),
{
    let k = lesser(n, s.len() as int);
    vstd::utf8::is_ascii_chars_encode_utf8(s);
    assert(bytes(s).len() == s.len());
    vstd::utf8::encode_utf8_valid_utf8(s);
    let t = s.take(k);
    assert(vstd::utf8::is_ascii_chars(t));
    vstd::utf8::is_ascii_chars_encode_utf8(t);
    assert(bytes(t) =~= bytes(s).take(k));
    vstd::utf8::encode_utf8_decode_utf8(t);
    if k < s.len() {
        vstd::utf8::is_char_boundary_iff_not_is_continuation_byte(bytes(s), k);
        let b = bytes(s)[k];
        assert(b == s[k] as u8);
        assert(b < 128);
    } else {
        vstd::utf8::is_char_boundary_start_end_of_seq(bytes(s));
    }
}

/// A text without the separator is one piece.
pub proof fn law_split_plain(s: Seq<char>, c: char)
    requires
        !s.contains(c),
    ensures
        split(s, c) == seq![s],
    decreases s.len(),
{
    if s.len() > 0 {
        let t = s.drop_last();
        assert(s[s.len() - 1] == s.last());
        assert forall|i: int| 0 <= i < t.len() implies t[i] != c by {
            assert(t[i] == s[i]);
        }
        law_split_plain(t, c);
        assert(t.push(s.last()) =~= s);
        assert(seq![t].last() == t);
        assert(seq![t].drop_last().push(s) =~= seq![s]);
    } else {
        assert(s =~= Seq::<char>::empty());
    }
}

/// A separator ends one piece and starts the next: the pieces of two texts with a separator in
/// between are the pieces of the one and then those of the other.
pub proof fn law_split_at_separator(a: Seq<char>, c: char, b: Seq<char>)
    ensures
        split(a.push(c) + b, c) == split(a, c) + split(b, c),
    decreases b.len(),
{
    let s = a.push(c) + b;
    lemma_split_some(b, c);
    if b.len() == 0 {
        assert(s =~= a.push(c));
        assert(s.drop_last() =~= a);
        assert(split(a, c).push(Seq::empty()) =~= split(a, c) + seq![Seq::<char>::empty()]);
    } else {
        let t = b.drop_last();
        law_split_at_separator(a, c, t);
        lemma_split_some(t, c);
        assert(s.drop_last() =~= a.push(c) + t);
        assert(s.last() == b.last());
        let before = split(a, c) + split(t, c);
        assert(before.last() == split(t, c).last());
        assert(before.drop_last() =~= split(a, c) + split(t, c).drop_last());
        assert(split(s, c) =~= split(a, c) + split(b, c));
    }
}

proof fn lemma_split_some(s: Seq<char>, c: char)
    ensures
        split(s, c).len() > 0,
    decreases s.len(),
{
    if s.len() > 0 {
        lemma_split_some(s.drop_last(), c);
    }
}

/// Splitting loses nothing: the pieces, with the separator between them again, are the text, and no
/// piece holds a separator.
pub proof fn law_split_joins_back(s: Seq<char>, c: char)
    ensures
        joined(split(s, c), seq![c]) == s,
        forall|i: int| 0 <= i < split(s, c).len() ==> !(#[trigger] split(s, c)[i]).contains(c),
    decreases s.len(),
{
    lemma_split_some(s, c);
    if s.len() > 0 {
        let t = s.drop_last();
        law_split_joins_back(t, c);
        lemma_split_some(t, c);
        let p = split(t, c);
        let q = split(s, c);
        if s.last() == c {
            assert(q.drop_last() =~= p);
            assert(joined(q, seq![c]) =~= s);
            assert forall|i: int| 0 <= i < q.len() implies !(#[trigger] q[i]).contains(c) by {
                if i < p.len() {
                    assert(q[i] == p[i]);
                }
            }
        } else {
            let w = p.last().push(s.last());
            assert(q.last() == w);
            assert(q.drop_last() =~= p.drop_last());
            if p.len() > 1 {
                assert(joined(p, seq![c]) == joined(p.drop_last(), seq![c]) + seq![c] + p.last());
                assert(joined(q, seq![c]) == joined(p.drop_last(), seq![c]) + seq![c] + w);
            }
            if p.len() > 1 {
                assert(joined(q, seq![c]) =~= t.push(s.last()));
            } else {
                assert(p.last() == t);
                assert(joined(q, seq![c]) == w);
            }
            assert(t.push(s.last()) =~= s);
            assert forall|i: int| 0 <= i < q.len() implies !(#[trigger] q[i]).contains(c) by {
                if i < p.len() - 1 {
                    assert(q[i] == p[i]);
                } else {
                    assert(!p[p.len() - 1].contains(c));
                    if w.contains(c) {
                        let k = choose|k: int| 0 <= k < w.len() && w[k] == c;
                        assert(p.last()[k] == c);
                    }
                }
            }
        }
    } else {
        assert(!Seq::<char>::empty().contains(c));
    }
}

/// A text without a line feed is one line, or none where it is empty.
pub proof fn law_one_line(s: Seq<char>)
    requires
        !s.contains('\n'),
    ensures
        lines(s) == if s.len() == 0 {
            Seq::empty()
        } else {
            seq![s]
        },
{
    law_split_plain(s, '\n');
    if s.len() == 0 {
        assert(lines(s) =~= Seq::<Seq<char>>::empty());
    } else {
        assert(lines(s) =~= seq![s]);
    }
}

/// A line feed ends a line, and with it goes the carriage return in front of it.
pub proof fn law_lines_at_line_feed(a: Seq<char>, b: Seq<char>)
    requires
        !a.contains('\n'),
    ensures
        lines(a.push('\n') + b) == seq![
            if a.len() > 0 && a.last() == '\r' {
                a.drop_last()
            } else {
                a
            },
        ] + lines(b),
{
    law_split_plain(a, '\n');
    law_split_at_separator(a, '\n', b);
    lemma_split_some(b, '\n');
    let s = a.push('\n') + b;
    let p = split(s, '\n');
    let q = split(b, '\n');
    assert(p =~= seq![a] + q);
    assert(p.last() == q.last());
    assert forall|i: int| 0 < i < p.len() implies p[i] == q[i - 1] by {}
    assert(lines(s) =~= seq![without_cr(a)] + lines(b));
}

/// White space separates words: those of two texts with white space in between are the words of the
/// one and then those of the other.
pub proof fn law_words_at_white(a: Seq<char>, c: char, b: Seq<char>)
    requires
        white(c),
    ensures
        words(a.push(c) + b) == words(a) + words(b),
    decreases b.len(),
{
    let s = a.push(c) + b;
    if b.len() == 0 {
        assert(s =~= a.push(c));
        assert(s.drop_last() =~= a);
        assert(words(a) + words(b) =~= words(a));
    } else {
        let t = b.drop_last();
        law_words_at_white(a, c, t);
        assert(s.drop_last() =~= a.push(c) + t);
        assert(s.last() == b.last());
        let rest = s.drop_last();
        if t.len() == 0 {
            assert(rest.last() == c);
            assert(words(t) =~= Seq::<Seq<char>>::empty());
            assert(words(s) =~= words(a) + words(b));
        } else {
            assert(rest.last() == t.last());
            lemma_words_some(t);
            let before = words(a) + words(t);
            if words(t).len() > 0 {
                assert(before.last() == words(t).last());
                assert(before.drop_last() =~= words(a) + words(t).drop_last());
            }
            assert(words(s) =~= words(a) + words(b));
        }
    }
}

proof fn lemma_words_some(s: Seq<char>)
    ensures
        s.len() > 0 && !white(s.last()) ==> words(s).len() > 0,
    decreases s.len(),
{
    if s.len() > 0 {
        lemma_words_some(s.drop_last());
    }
}

/// A text without white space is one word, or none where it is empty.
pub proof fn law_one_word(s: Seq<char>)
    requires
        forall|i: int| 0 <= i < s.len() ==> !white(#[trigger] s[i]),
    ensures
        words(s) == if s.len() == 0 {
            Seq::empty()
        } else {
            seq![s]
        },
    decreases s.len(),
{
    if s.len() > 0 {
        let t = s.drop_last();
        assert forall|i: int| 0 <= i < t.len() implies !white(#[trigger] t[i]) by {
            assert(t[i] == s[i]);
        }
        law_one_word(t);
        assert(!white(s[s.len() - 1]));
        if t.len() > 0 {
            assert(!white(t[t.len() - 1]));
            assert(seq![t].last() == t);
            assert(seq![t].drop_last().push(t.push(s.last())) =~= seq![t.push(s.last())]);
        } else {
            assert(words(s) =~= seq![seq![s.last()]]);
            assert(seq![s.last()] =~= s);
        }
        assert(t.push(s.last()) =~= s);
    }
}

/// Trimming takes white space off the two ends and nothing else: the text is some white space, what
/// is left, and some white space, and what is left neither begins nor ends with white space.
pub proof fn law_trimmed(s: Seq<char>) -> (res: (Seq<char>, Seq<char>))
    ensures
        s == res.0 + trimmed(s) + res.1,
        forall|i: int| 0 <= i < res.0.len() ==> white(#[trigger] res.0[i]),
        forall|i: int| 0 <= i < res.1.len() ==> white(#[trigger] res.1[i]),
        trimmed(s).len() > 0 ==> !white(trimmed(s)[0]) && !white(trimmed(s).last()),
{
    let a = lemma_trim_start(s);
    let b = lemma_trim_end(trim_start(s));
    assert(s =~= a + trimmed(s) + b);
    if trimmed(s).len() > 0 {
        assert(trim_start(s)[0] == trimmed(s)[0]);
    }
    (a, b)
}

proof fn lemma_trim_start(s: Seq<char>) -> (a: Seq<char>)
    ensures
        s == a + trim_start(s),
        forall|i: int| 0 <= i < a.len() ==> white(#[trigger] a[i]),
        trim_start(s).len() > 0 ==> !white(trim_start(s)[0]),
    decreases s.len(),
{
    if s.len() > 0 && white(s[0]) {
        let r = lemma_trim_start(s.skip(1));
        let a = seq![s[0]] + r;
        assert(s =~= seq![s[0]] + s.skip(1));
        assert(s =~= a + trim_start(s));
        a
    } else {
        assert(s =~= Seq::<char>::empty() + s);
        Seq::empty()
    }
}

proof fn lemma_trim_end(s: Seq<char>) -> (b: Seq<char>)
    ensures
        s == trim_end(s) + b,
        forall|i: int| 0 <= i < b.len() ==> white(#[trigger] b[i]),
        trim_end(s).len() > 0 ==> !white(trim_end(s).last()),
    decreases s.len(),
{
    if s.len() > 0 && white(s.last()) {
        let r = lemma_trim_end(s.drop_last());
        let b = r.push(s.last());
        assert(s =~= s.drop_last().push(s.last()));
        assert(s =~= trim_end(s) + b);
        b
    } else {
        assert(s =~= s + Seq::<char>::empty());
        Seq::empty()
    }
}

/// The number that a hexadecimal digit denotes.
pub open spec fn digit_value(c: char) -> int {
    if '0' <= c <= '9' {
        c as int - '0' as int
    } else {
        c as int - 'a' as int + 10
    }
}

/// The number that hexadecimal digits denote.
pub open spec fn hex_value(s: Seq<char>) -> int
    decreases s.len(),
{
    if s.len() == 0 {
        0
    } else {
        hex_value(s.drop_last()) * 16 + digit_value(s.last())
    }
}

/// A number written in hexadecimal has the width asked for, and its digits denote it again where it
/// fits.
pub proof fn law_hex_reads_back(n: nat, width: nat)
    ensures
        hex(n, width).len() == width,
        n < vstd::arithmetic::power::pow(16, width) ==> hex_value(hex(n, width)) == n,
    decreases width,
{
    if width == 0 {
        vstd::arithmetic::power::lemma_pow0(16);
    } else {
        law_hex_reads_back(n / 16, (width - 1) as nat);
        vstd::arithmetic::power::lemma_pow1(16);
        vstd::arithmetic::power::lemma_pow_adds(16, 1, (width - 1) as nat);
        let h = hex(n, width);
        assert(h.drop_last() =~= hex(n / 16, (width - 1) as nat));
        assert(digit_value(digit(n % 16)) == n % 16);
    }
}

/// Replacing a character leaves a text without it as it is, and puts the other text in its place
/// wherever it stands.
pub proof fn law_replaced(a: Seq<char>, c: char, b: Seq<char>, with: Seq<char>)
    ensures
        !a.contains(c) ==> replaced(a, c, with) == a,
        replaced(a.push(c) + b, c, with) == replaced(a, c, with) + with + replaced(b, c, with),
    decreases a.len() + b.len(),
{
    if !a.contains(c) && a.len() > 0 {
        let t = a.drop_last();
        assert(a[a.len() - 1] == a.last());
        assert forall|i: int| 0 <= i < t.len() implies t[i] != c by {
            assert(t[i] == a[i]);
        }
        lemma_replaced_plain(t, c, with);
        assert(t.push(a.last()) =~= a);
    }
    let s = a.push(c) + b;
    if b.len() == 0 {
        assert(s =~= a.push(c));
        assert(s.drop_last() =~= a);
        assert(replaced(s, c, with) =~= replaced(a, c, with) + with + replaced(b, c, with));
    } else {
        law_replaced(a, c, b.drop_last(), with);
        assert(s.drop_last() =~= a.push(c) + b.drop_last());
        assert(s.last() == b.last());
        assert(replaced(s, c, with) =~= replaced(a, c, with) + with + replaced(b, c, with));
    }
}

proof fn lemma_replaced_plain(a: Seq<char>, c: char, with: Seq<char>)
    requires
        !a.contains(c),
    ensures
        replaced(a, c, with) == a,
    decreases a.len(),
{
    if a.len() > 0 {
        let t = a.drop_last();
        assert(a[a.len() - 1] == a.last());
        assert forall|i: int| 0 <= i < t.len() implies t[i] != c by {
            assert(t[i] == a[i]);
        }
        lemma_replaced_plain(t, c, with);
        assert(t.push(a.last()) =~= a);
    }
}

/// A text begins with another exactly where it is that one and something behind it, and ends with
/// another exactly where it is something and that one behind it.
pub proof fn law_prefix_and_suffix(s: Seq<char>, p: Seq<char>)
    ensures
        has_prefix(s, p) <==> exists|r: Seq<char>| s == #[trigger] (p + r),
        has_suffix(s, p) <==> exists|r: Seq<char>| s == #[trigger] (r + p),
{
    if has_prefix(s, p) {
        assert(s =~= p + s.skip(p.len() as int)) by {
            assert(s.subrange(0, p.len() as int) == p);
            assert(s =~= s.subrange(0, p.len() as int) + s.skip(p.len() as int));
        }
    }
    if exists|r: Seq<char>| s == #[trigger] (p + r) {
        let r = choose|r: Seq<char>| s == #[trigger] (p + r);
        assert(s.subrange(0, p.len() as int) =~= p);
    }
    if has_suffix(s, p) {
        let n = s.len() - p.len();
        assert(s =~= s.take(n) + p) by {
            assert(s.subrange(n, s.len() as int) == p);
            assert(s =~= s.take(n) + s.subrange(n, s.len() as int));
        }
    }
    if exists|r: Seq<char>| s == #[trigger] (r + p) {
        let r = choose|r: Seq<char>| s == #[trigger] (r + p);
        assert(s.subrange(s.len() - p.len(), s.len() as int) =~= p);
    }
}

} // verus!
