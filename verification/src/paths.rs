//! Unix paths as text.

use crate::text;
use vstd::prelude::*;

verus! {

/// `p` put behind `base`, as `std::path::Path::join` does on Unix: an absolute `p` stands alone,
/// and a slash is added only where `base` does not end in one.
pub open spec fn joined(base: Seq<char>, p: Seq<char>) -> Seq<char> {
    if p.len() > 0 && p[0] == '/' {
        p
    } else if base.len() == 0 || base.last() == '/' {
        base + p
    } else {
        base.push('/') + p
    }
}

/// `p` put behind `base`.
pub fn join(base: &str, p: &str) -> (res: String)
    ensures
        res@ == joined(base@, p@),
{
    let x: Vec<char> = text::to_chars(base);
    let y: Vec<char> = text::to_chars(p);
    if y.len() > 0 && y[0] == '/' {
        p.to_owned()
    } else {
        let mut out: String = base.to_owned();
        if x.len() > 0 && x[x.len() - 1] != '/' {
            out.push('/');
        }
        out.append(p);
        out
    }
}

/// A relative path joined to a non-empty directory stays below it.
pub proof fn law_join_stays_below(base: Seq<char>, p: Seq<char>)
    requires
        p.len() == 0 || p[0] != '/',
    ensures
        text::has_prefix(joined(base, p), base),
        text::has_suffix(joined(base, p), p),
{
    assert(joined(base, p).subrange(0, base.len() as int) =~= base);
    let j = joined(base, p);
    assert(j.subrange(j.len() - p.len(), j.len() as int) =~= p);
}

/// The segments of a path that name something: neither empty nor the directory itself.
pub open spec fn named(v: Seq<Seq<char>>) -> Seq<Seq<char>>
    decreases v.len(),
{
    if v.len() == 0 {
        Seq::empty()
    } else if v.last().len() > 0 && v.last() != "."@ {
        named(v.drop_last()).push(v.last())
    } else {
        named(v.drop_last())
    }
}

/// The last segment of a path, as `std::path::Path::file_name` gives it on Unix; empty where the
/// path ends in a parent directory or has no segment.
pub open spec fn file_name(p: Seq<char>) -> Seq<char> {
    let n = named(text::split(p, '/'));
    if n.len() == 0 || n.last() == ".."@ {
        Seq::empty()
    } else {
        n.last()
    }
}

/// The last segment of a path.
pub fn file_name_of(p: &str) -> (res: String)
    ensures
        res@ == file_name(p@),
{
    let parts: Vec<String> = text::split_on(p, '/');
    let ghost v = text::strings(parts@);
    assert(v.len() == parts@.len());
    let mut i: usize = parts.len();
    assert(v.take(i as int) =~= v);
    while i > 0
        invariant
            i <= parts@.len(),
            v == text::strings(parts@),
            named(v) == named(v.take(i as int)),
            v == text::split(p@, '/'),
        decreases i,
    {
        assert(v.take(i as int).drop_last() =~= v.take(i - 1));
        assert(v.take(i as int).last() == parts@[i - 1]@);
        i -= 1;
        if !parts[i].as_str().is_empty() && !text::same(parts[i].as_str(), ".") {
            assert(named(v).last() == parts@[i as int]@);
            if text::same(parts[i].as_str(), "..") {
                let none: String = String::new();
                assert(none@ =~= Seq::<char>::empty());
                return none;
            }
            return parts[i].clone();
        }
    }
    let none: String = String::new();
    assert(none@ =~= Seq::<char>::empty());
    none
}

/// What follows the last slash of a path.
pub fn last_piece(p: &str) -> (res: String)
    ensures
        res@ == text::split(p@, '/').last(),
{
    let parts: Vec<String> = text::split_on(p, '/');
    proof {
        text::lemma_split_nonempty(p@, '/');
        assert(parts@.len() == text::strings(parts@).len());
        assert(text::strings(parts@).last() == parts@.last()@);
    }
    parts[parts.len() - 1].clone()
}

/// Whether a path could lead out of the directory it is taken in: it is absolute, or climbs.
pub open spec fn escapes(p: Seq<char>) -> bool {
    ||| text::has_prefix(p, "/"@)
    ||| text::has_substring(p, "../"@)
    ||| text::has_substring(p, "/.."@)
    ||| p == ".."@
}

/// Decides [`escapes`].
pub fn may_escape(p: &str) -> (res: bool)
    ensures
        res == escapes(p@),
{
    text::starts_with(p, "/") || text::contains(p, "../") || text::contains(p, "/..") || text::same(
        p,
        "..",
    )
}

/// Each piece of a split is a run of the text between separators.
proof fn lemma_piece(s: Seq<char>, c: char, k: int) -> (r: (int, int))
    requires
        0 <= k < text::split(s, c).len(),
    ensures
        0 <= r.0 <= r.1 <= s.len(),
        text::split(s, c)[k] == s.subrange(r.0, r.1),
        r.0 == 0 || s[r.0 - 1] == c,
        r.1 == s.len() || s[r.1] == c,
        r.1 == s.len() <==> k == text::split(s, c).len() - 1,
    decreases s.len(),
{
    if s.len() == 0 {
        assert(s.subrange(0, 0) =~= Seq::<char>::empty());
        (0, 0)
    } else {
        let t = s.drop_last();
        let before = text::split(t, c);
        text::lemma_split_nonempty(t, c);
        let n = s.len() as int;
        if s.last() == c {
            if k == before.len() {
                assert(s.subrange(n, n) =~= Seq::<char>::empty());
                (n, n)
            } else {
                let (a, b) = lemma_piece(t, c, k);
                assert(s.subrange(a, b) =~= t.subrange(a, b));
                (a, b)
            }
        } else if k == before.len() - 1 {
            let (a, b) = lemma_piece(t, c, k);
            assert(s.subrange(a, n) =~= t.subrange(a, b).push(s.last()));
            (a, n)
        } else {
            let (a, b) = lemma_piece(t, c, k);
            assert(s.subrange(a, b) =~= t.subrange(a, b));
            (a, b)
        }
    }
}

/// A path that does not escape has no segment that climbs, and joined to a directory it stays
/// below it.
pub proof fn law_safe_path_stays_inside(dir: Seq<char>, p: Seq<char>)
    requires
        !escapes(p),
    ensures
        forall|k: int| 0 <= k < text::split(p, '/').len() ==> #[trigger] text::split(p, '/')[k]
            != ".."@,
        text::has_prefix(joined(dir, p), dir),
        text::has_suffix(joined(dir, p), p),
{
    reveal_strlit("..");
    reveal_strlit("/");
    reveal_strlit("../");
    reveal_strlit("/..");
    assert forall|k: int| 0 <= k < text::split(p, '/').len() implies #[trigger] text::split(p, '/')[k]
        != ".."@ by {
        if text::split(p, '/')[k] == ".."@ {
            let (a, b) = lemma_piece(p, '/', k);
            let piece = p.subrange(a, b);
            assert(piece.len() == 2);
            assert(piece[0] == '.' && piece[1] == '.');
            assert(p[a] == piece[0] && p[a + 1] == piece[1]);
            if b < p.len() {
                assert(p.subrange(a, a + 3) =~= "../"@);
                assert(text::occurs_at(p, "../"@, a));
            } else if a > 0 {
                assert(p.subrange(a - 1, a + 2) =~= "/.."@);
                assert(text::occurs_at(p, "/.."@, a - 1));
            } else {
                assert(p =~= ".."@);
            }
        }
    }
    if p.len() > 0 && p[0] == '/' {
        assert(p.subrange(0, 1) =~= "/"@);
        assert(text::has_prefix(p, "/"@));
    }
    law_join_stays_below(dir, p);
}

/// Joining puts one slash between a directory and a relative path, and an absolute path stands for
/// itself.
pub proof fn law_joined(base: Seq<char>, p: Seq<char>)
    ensures
        p.len() > 0 && p[0] == '/' ==> joined(base, p) == p,
        !(p.len() > 0 && p[0] == '/') && base.len() > 0 && base.last() != '/' ==> joined(base, p)
            == base + seq!['/'] + p,
        !(p.len() > 0 && p[0] == '/') && (base.len() == 0 || base.last() == '/') ==> joined(base, p)
            == base + p,
{
    assert(base.push('/') + p =~= base + seq!['/'] + p);
}

/// The name of a file is what follows the last slash of its path, whatever directory it stands in.
pub proof fn law_file_name(dir: Seq<char>, name: Seq<char>)
    requires
        name.len() > 0,
        !name.contains('/'),
        name != "."@,
        name != ".."@,
    ensures
        file_name(dir.push('/') + name) == name,
        file_name(name) == name,
        dir.len() == 0 || dir.last() == '/' || name[0] != '/' ==> file_name(joined(dir, name))
            == name,
{
    text::law_split_plain(name, '/');
    text::law_split_at_separator(dir, '/', name);
    let v = text::split(dir.push('/') + name, '/');
    assert(v =~= text::split(dir, '/') + seq![name]);
    assert(v.last() == name);
    assert(named(v).last() == name);
    assert(seq![name].last() == name);
    assert(named(seq![name]).last() == name);
    assert(!(name[0] == '/')) by {
        if name[0] == '/' {
            assert(name.contains('/'));
        }
    }
    if dir.len() > 0 && dir.last() == '/' {
        let d = dir.drop_last();
        assert(dir + name =~= d.push('/') + name);
        text::law_split_at_separator(d, '/', name);
        let w = text::split(d.push('/') + name, '/');
        assert(w =~= text::split(d, '/') + seq![name]);
        assert(w.last() == name);
        assert(named(w).last() == name);
    } else if dir.len() == 0 {
        assert(dir + name =~= name);
    }
}

/// A relative path in which no two dots follow each other is not refused; an absolute path is, and
/// so is one with a segment of two dots.
pub proof fn law_escapes(p: Seq<char>, a: Seq<char>, b: Seq<char>)
    ensures
        p.len() > 0 && p[0] == '/' ==> escapes(p),
        escapes(seq!['.', '.']),
        escapes(seq!['.', '.', '/'] + a),
        escapes(a + seq!['/', '.', '.'] + b),
        !(p.len() > 0 && p[0] == '/') && (forall|i: int|
            0 <= i < p.len() - 1 ==> !(#[trigger] p[i] == '.' && p[i + 1] == '.')) ==> !escapes(p),
{
    reveal_strlit("..");
    reveal_strlit("/");
    reveal_strlit("../");
    reveal_strlit("/..");
    assert(".."@ =~= seq!['.', '.']);
    assert("/"@ =~= seq!['/']);
    assert("../"@ =~= seq!['.', '.', '/']);
    assert("/.."@ =~= seq!['/', '.', '.']);
    if p.len() > 0 && p[0] == '/' {
        assert(p.subrange(0, 1) =~= "/"@);
        assert(text::occurs_at(p, "/"@, 0));
    }
    let up = seq!['.', '.', '/'] + a;
    assert(up.subrange(0, 3) =~= "../"@);
    assert(text::occurs_at(up, "../"@, 0));
    let deep = a + seq!['/', '.', '.'] + b;
    let n = a.len() as int;
    assert(deep.subrange(n, n + 3) =~= "/.."@);
    assert(text::occurs_at(deep, "/.."@, n));
    if !(p.len() > 0 && p[0] == '/') && (forall|i: int|
        0 <= i < p.len() - 1 ==> !(#[trigger] p[i] == '.' && p[i + 1] == '.')) {
        if text::has_prefix(p, "/"@) {
            assert(p.subrange(0, 1)[0] == '/');
        }
        if text::has_substring(p, "../"@) {
            let at = choose|at: int| #[trigger] text::occurs_at(p, "../"@, at);
            let w = p.subrange(at, at + 3);
            assert(w[0] == p[at] && w[1] == p[at + 1]);
        }
        if text::has_substring(p, "/.."@) {
            let at = choose|at: int| #[trigger] text::occurs_at(p, "/.."@, at);
            let w = p.subrange(at, at + 3);
            assert(w[1] == p[at + 1] && w[2] == p[at + 2]);
            assert(p[at + 1] == '.' && p[(at + 1) + 1] == '.');
        }
        if p == ".."@ {
            assert(p[0] == '.' && p[0int + 1] == '.');
        }
    }
}

} // verus!
