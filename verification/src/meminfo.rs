//! Reading `/proc/meminfo`.

use crate::text;
use vstd::prelude::*;

verus! {

/// The available memory by the first line that gives it: nothing where its number cannot be read.
pub open spec fn available(lines: Seq<Seq<char>>) -> Option<nat>
    decreases lines.len(),
{
    if lines.len() == 0 {
        None
    } else if text::has_prefix(lines[0], "MemAvailable:"@) && text::words(lines[0]).len() >= 2 {
        text::parsed(text::words(lines[0])[1], u64::MAX as nat)
    } else {
        available(lines.skip(1))
    }
}

/// Reads the available memory in KiB.
pub fn read_mem_available(content: &str) -> (res: Option<u64>)
    ensures
        match res {
            Some(n) => available(text::lines(content@)) == Some(n as nat),
            None => available(text::lines(content@)) is None,
        },
{
    let lines: Vec<String> = text::lines_of(content);
    let ghost l = text::strings(lines@);
    let mut i: usize = 0;
    assert(l.skip(0) =~= l);
    while i < lines.len()
        invariant
            i <= lines@.len(),
            l == text::strings(lines@),
            l == text::lines(content@),
            available(l) == available(l.skip(i as int)),
        decreases lines@.len() - i,
    {
        assert(l.skip(i as int)[0] == lines@[i as int]@);
        assert(l.skip(i as int).skip(1) =~= l.skip(i + 1));
        if text::starts_with(lines[i].as_str(), "MemAvailable:") {
            let w: Vec<String> = text::words_of(lines[i].as_str());
            assert(text::strings(w@).len() == w@.len());
            if w.len() >= 2 {
                assert(text::strings(w@)[1] == w@[1]@);
                return text::parse_up_to(w[1].as_str(), u64::MAX);
            }
        }
        i += 1;
    }
    None
}

/// The guest's memory figures, in KiB.
#[derive(Debug, Clone, Copy, PartialEq, Eq, Structural)]
pub struct MemInfo {
    pub mem_total_kb: u64,
    pub mem_free_kb: u64,
    pub mem_available_kb: u64,
    pub buffers_kb: u64,
    pub cached_kb: u64,
    pub swap_total_kb: u64,
    pub swap_free_kb: u64,
}

/// The figure that the last line with a label gives: zero where no line does, or its number
/// cannot be read.
pub open spec fn figure(lines: Seq<Seq<char>>, label: Seq<char>) -> nat
    decreases lines.len(),
{
    if lines.len() == 0 {
        0
    } else {
        let w = text::words(lines.last());
        if w.len() >= 2 && w[0] == label {
            match text::parsed(w[1], u64::MAX as nat) {
                Some(n) => n,
                None => 0,
            }
        } else {
            figure(lines.drop_last(), label)
        }
    }
}

/// Whether `m` holds the figures that some lines give.
pub open spec fn figures(lines: Seq<Seq<char>>, m: MemInfo) -> bool {
    &&& m.mem_total_kb == figure(lines, "MemTotal:"@)
    &&& m.mem_free_kb == figure(lines, "MemFree:"@)
    &&& m.mem_available_kb == figure(lines, "MemAvailable:"@)
    &&& m.buffers_kb == figure(lines, "Buffers:"@)
    &&& m.cached_kb == figure(lines, "Cached:"@)
    &&& m.swap_total_kb == figure(lines, "SwapTotal:"@)
    &&& m.swap_free_kb == figure(lines, "SwapFree:"@)
}

proof fn lemma_labels_differ()
    ensures
        "MemTotal:"@ != "MemFree:"@,
        "MemTotal:"@ != "MemAvailable:"@,
        "MemTotal:"@ != "Buffers:"@,
        "MemTotal:"@ != "Cached:"@,
        "MemTotal:"@ != "SwapTotal:"@,
        "MemTotal:"@ != "SwapFree:"@,
        "MemFree:"@ != "MemAvailable:"@,
        "MemFree:"@ != "Buffers:"@,
        "MemFree:"@ != "Cached:"@,
        "MemFree:"@ != "SwapTotal:"@,
        "MemFree:"@ != "SwapFree:"@,
        "MemAvailable:"@ != "Buffers:"@,
        "MemAvailable:"@ != "Cached:"@,
        "MemAvailable:"@ != "SwapTotal:"@,
        "MemAvailable:"@ != "SwapFree:"@,
        "Buffers:"@ != "Cached:"@,
        "Buffers:"@ != "SwapTotal:"@,
        "Buffers:"@ != "SwapFree:"@,
        "Cached:"@ != "SwapTotal:"@,
        "Cached:"@ != "SwapFree:"@,
        "SwapTotal:"@ != "SwapFree:"@,
{
    reveal_strlit("MemTotal:");
    reveal_strlit("MemFree:");
    reveal_strlit("MemAvailable:");
    reveal_strlit("Buffers:");
    reveal_strlit("Cached:");
    reveal_strlit("SwapTotal:");
    reveal_strlit("SwapFree:");
    assert("MemTotal:"@.len() == 9 && "MemFree:"@.len() == 8 && "MemAvailable:"@.len() == 13
        && "Buffers:"@.len() == 8 && "Cached:"@.len() == 7 && "SwapTotal:"@.len() == 10
        && "SwapFree:"@.len() == 9);
    assert("MemFree:"@[0] != "Buffers:"@[0]);
    assert("MemTotal:"@[0] != "SwapFree:"@[0]);
}

/// Reads the guest's memory figures. Lines with other labels are passed over.
pub fn get_mem_info(content: &str) -> (res: MemInfo)
    ensures
        figures(text::lines(content@), res),
{
    let lines: Vec<String> = text::lines_of(content);
    let ghost l = text::strings(lines@);
    let mut m: MemInfo = MemInfo {
        mem_total_kb: 0,
        mem_free_kb: 0,
        mem_available_kb: 0,
        buffers_kb: 0,
        cached_kb: 0,
        swap_total_kb: 0,
        swap_free_kb: 0,
    };
    let mut i: usize = 0;
    assert(l.take(0) =~= Seq::<Seq<char>>::empty());
    while i < lines.len()
        invariant
            i <= lines@.len(),
            l == text::strings(lines@),
            figures(l.take(i as int), m),
        decreases lines@.len() - i,
    {
        proof {
            assert(l.take(i + 1).drop_last() =~= l.take(i as int));
            assert(l.take(i + 1).last() == lines@[i as int]@);
            lemma_labels_differ();
        }
        let w: Vec<String> = text::words_of(lines[i].as_str());
        assert(text::strings(w@).len() == w@.len());
        if w.len() >= 2 {
            assert(text::strings(w@)[0] == w@[0]@);
            assert(text::strings(w@)[1] == w@[1]@);
            let val: u64 = match text::parse_up_to(w[1].as_str(), u64::MAX) {
                Some(n) => n,
                None => 0,
            };
            let label: &str = w[0].as_str();
            if text::same(label, "MemTotal:") {
                m.mem_total_kb = val;
            } else if text::same(label, "MemFree:") {
                m.mem_free_kb = val;
            } else if text::same(label, "MemAvailable:") {
                m.mem_available_kb = val;
            } else if text::same(label, "Buffers:") {
                m.buffers_kb = val;
            } else if text::same(label, "Cached:") {
                m.cached_kb = val;
            } else if text::same(label, "SwapTotal:") {
                m.swap_total_kb = val;
            } else if text::same(label, "SwapFree:") {
                m.swap_free_kb = val;
            }
        }
        i += 1;
    }
    assert(l.take(lines@.len() as int) =~= l);
    m
}

/// Whether a line gives a figure under a label.
pub open spec fn labelled(line: Seq<char>, label: Seq<char>) -> bool {
    text::words(line).len() >= 2 && text::words(line)[0] == label
}

/// A figure is the number in the last line that begins with its label, and zero where there is no
/// such line or no number in it.
pub proof fn law_figure(lines: Seq<Seq<char>>, label: Seq<char>)
    ensures
        (forall|i: int| 0 <= i < lines.len() ==> !labelled(#[trigger] lines[i], label)) ==> figure(
            lines,
            label,
        ) == 0,
        forall|i: int|
            0 <= i < lines.len() && labelled(#[trigger] lines[i], label) && (forall|k: int|
                i < k < lines.len() ==> !labelled(#[trigger] lines[k], label)) ==> figure(
                lines,
                label,
            ) == match text::parsed(text::words(lines[i])[1], u64::MAX as nat) {
                Some(n) => n,
                None => 0,
            },
    decreases lines.len(),
{
    if lines.len() > 0 {
        let most = lines.drop_last();
        let n = lines.len() - 1;
        law_figure(most, label);
        if forall|i: int| 0 <= i < lines.len() ==> !labelled(#[trigger] lines[i], label) {
            assert(!labelled(lines[n], label));
            assert forall|i: int| 0 <= i < most.len() implies !labelled(
                #[trigger] most[i],
                label,
            ) by {
                assert(most[i] == lines[i]);
            }
        }
        assert forall|i: int|
            0 <= i < lines.len() && labelled(#[trigger] lines[i], label) && (forall|k: int|
                i < k < lines.len() ==> !labelled(#[trigger] lines[k], label)) implies figure(
            lines,
            label,
        ) == match text::parsed(text::words(lines[i])[1], u64::MAX as nat) {
            Some(n) => n,
            None => 0,
        } by {
            if i < n {
                assert(!labelled(lines[n], label));
                assert(most[i] == lines[i]);
                assert forall|k: int| i < k < most.len() implies !labelled(
                    #[trigger] most[k],
                    label,
                ) by {
                    assert(most[k] == lines[k]);
                }
            }
        }
    }
}

/// Each figure is read under its own label.
pub proof fn law_figures_by_label(lines: Seq<Seq<char>>, m: MemInfo)
    requires
        figures(lines, m),
    ensures
        m.mem_total_kb == figure(lines, "MemTotal:"@),
        m.mem_free_kb == figure(lines, "MemFree:"@),
        m.mem_available_kb == figure(lines, "MemAvailable:"@),
        m.buffers_kb == figure(lines, "Buffers:"@),
        m.cached_kb == figure(lines, "Cached:"@),
        m.swap_total_kb == figure(lines, "SwapTotal:"@),
        m.swap_free_kb == figure(lines, "SwapFree:"@),
{
}

/// The memory that is available is the number in the first line for it that has one word more.
pub proof fn law_available(lines: Seq<Seq<char>>, i: int)
    requires
        0 <= i < lines.len(),
        text::has_prefix(lines[i], "MemAvailable:"@),
        text::words(lines[i]).len() >= 2,
        forall|k: int|
            0 <= k < i ==> !(text::has_prefix(#[trigger] lines[k], "MemAvailable:"@) && text::words(
                lines[k],
            ).len() >= 2),
    ensures
        available(lines) == text::parsed(text::words(lines[i])[1], u64::MAX as nat),
    decreases lines.len(),
{
    if i > 0 {
        let rest = lines.skip(1);
        assert(rest[i - 1] == lines[i]);
        assert forall|k: int| 0 <= k < i - 1 implies !(text::has_prefix(
            #[trigger] rest[k],
            "MemAvailable:"@,
        ) && text::words(rest[k]).len() >= 2) by {
            assert(rest[k] == lines[k + 1]);
        }
        law_available(rest, i - 1);
        assert(!(text::has_prefix(lines[0], "MemAvailable:"@) && text::words(lines[0]).len() >= 2));
    }
}

} // verus!
