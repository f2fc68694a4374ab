//! What the guest agent answers to its requests.

use crate::container;
use crate::container::{ContainerLogs, ExitStatus, KILLED};
use crate::netlink;
use vstd::prelude::*;

verus! {

/// How much of a container's output was fetched: of each stream, so many bytes.
#[derive(Debug, Clone, Copy, PartialEq, Eq, Structural)]
pub struct LogOffset {
    pub stdout: u64,
    pub stderr: u64,
}

/// How much of a container's output was fetched.
pub struct LogOffsetView {
    pub stdout: nat,
    pub stderr: nat,
}

impl View for LogOffset {
    type V = LogOffsetView;

    open spec fn view(&self) -> LogOffsetView {
        LogOffsetView { stdout: self.stdout as nat, stderr: self.stderr as nat }
    }
}

/// A part of a container's output.
#[derive(Debug)]
pub struct LogChunk {
    pub stdout: Vec<u8>,
    pub stderr: Vec<u8>,
    /// Where the next part starts.
    pub offset: LogOffset,
    pub eof: bool,
}

/// A part of a container's output.
#[verifier::ext_equal]
pub struct LogChunkView {
    pub stdout: Seq<u8>,
    pub stderr: Seq<u8>,
    pub offset: LogOffsetView,
    pub eof: bool,
}

impl View for LogChunk {
    type V = LogChunkView;

    open spec fn view(&self) -> LogChunkView {
        LogChunkView {
            stdout: self.stdout@,
            stderr: self.stderr@,
            offset: self.offset@,
            eof: self.eof,
        }
    }
}

/// The output of a container.
pub struct LogsView {
    pub stdout: Seq<u8>,
    pub stderr: Seq<u8>,
    pub eof: bool,
}

impl View for ContainerLogs {
    type V = LogsView;

    open spec fn view(&self) -> LogsView {
        LogsView { stdout: self.stdout@, stderr: self.stderr@, eof: self.eof }
    }
}

/// What follows a position, nothing where the position is at or behind the end.
pub open spec fn from_offset(b: Seq<u8>, offset: int) -> Seq<u8> {
    if offset < b.len() {
        b.skip(offset)
    } else {
        Seq::empty()
    }
}

fn tail(b: &Vec<u8>, offset: u64) -> (res: Vec<u8>)
    ensures
        res@ == from_offset(b@, offset as int),
{
    if offset < b.len() as u64 {
        let res: Vec<u8> = netlink::copy_range(b.as_slice(), offset as usize, b.len());
        assert(res@ =~= b@.skip(offset as int));
        res
    } else {
        Vec::new()
    }
}

/// Nothing has been fetched.
pub open spec fn log_start() -> LogOffsetView {
    LogOffsetView { stdout: 0, stderr: 0 }
}

/// The answer to a request for a container's output: of each stream, what follows its position.
/// The next part starts where both streams now end. A container without output has ended.
pub open spec fn log_part(logs: Option<LogsView>, at: LogOffsetView) -> LogChunkView {
    match logs {
        Some(l) => LogChunkView {
            stdout: from_offset(l.stdout, at.stdout as int),
            stderr: from_offset(l.stderr, at.stderr as int),
            offset: LogOffsetView { stdout: l.stdout.len(), stderr: l.stderr.len() },
            eof: l.eof,
        },
        None => LogChunkView {
            stdout: Seq::empty(),
            stderr: Seq::empty(),
            offset: log_start(),
            eof: true,
        },
    }
}

/// Answers a request for a container's output from a position in each stream on.
pub fn get_container_logs(logs: Option<&ContainerLogs>, offset: LogOffset) -> (res: LogChunk)
    ensures
        res@ == log_part(
            match logs {
                Some(l) => Some(l@),
                None => None,
            },
            offset@,
        ),
{
    match logs {
        Some(l) => LogChunk {
            stdout: tail(&l.stdout, offset.stdout),
            stderr: tail(&l.stderr, offset.stderr),
            offset: LogOffset { stdout: l.stdout.len() as u64, stderr: l.stderr.len() as u64 },
            eof: l.eof,
        },
        None => LogChunk {
            stdout: Vec::new(),
            stderr: Vec::new(),
            offset: LogOffset { stdout: 0, stderr: 0 },
            eof: true,
        },
    }
}

/// Appends output that was read.
pub fn append_stdout(logs: &mut ContainerLogs, data: &[u8])
    ensures
        final(logs).stdout@ == old(logs).stdout@ + data@,
        final(logs).stderr == old(logs).stderr,
        final(logs).eof == old(logs).eof,
{
    netlink::push_bytes(&mut logs.stdout, data);
}

/// Appends error output that was read.
pub fn append_stderr(logs: &mut ContainerLogs, data: &[u8])
    ensures
        final(logs).stderr@ == old(logs).stderr@ + data@,
        final(logs).stdout == old(logs).stdout,
        final(logs).eof == old(logs).eof,
{
    netlink::push_bytes(&mut logs.stderr, data);
}

/// The output with more of either stream behind it.
pub open spec fn grown(l: LogsView, more: LogsView) -> LogsView {
    LogsView { stdout: l.stdout + more.stdout, stderr: l.stderr + more.stderr, eof: more.eof }
}

/// Whether `got` is the output up to a position.
pub open spec fn fetched(got: LogsView, whole: LogsView, at: LogOffsetView) -> bool {
    &&& at == LogOffsetView { stdout: got.stdout.len(), stderr: got.stderr.len() }
    &&& at.stdout <= whole.stdout.len() && got.stdout == whole.stdout.take(at.stdout as int)
    &&& at.stderr <= whole.stderr.len() && got.stderr == whole.stderr.take(at.stderr as int)
}

/// What has been fetched after one more part.
pub open spec fn with_part(got: LogsView, part: LogChunkView) -> LogsView {
    LogsView {
        stdout: got.stdout + part.stdout,
        stderr: got.stderr + part.stderr,
        eof: part.eof,
    }
}

/// A request from where the last part ended leaves nothing out and repeats nothing: what was
/// fetched before, followed by the answer, is the whole of both streams.
pub proof fn law_log_part_completes(got: LogsView, whole: LogsView, at: LogOffsetView)
    requires
        fetched(got, whole, at),
    ensures
        with_part(got, log_part(Some(whole), at)) == whole,
        fetched(whole, whole, log_part(Some(whole), at).offset),
{
    assert(got.stdout + from_offset(whole.stdout, at.stdout as int) =~= whole.stdout);
    assert(got.stderr + from_offset(whole.stderr, at.stderr as int) =~= whole.stderr);
    assert(whole.stdout.take(whole.stdout.len() as int) =~= whole.stdout);
    assert(whole.stderr.take(whole.stderr.len() as int) =~= whole.stderr);
}

/// Two parts make the whole, however much either stream has grown between the requests.
pub proof fn law_log_parts_make_the_whole(l: LogsView, more: LogsView)
    ensures
        ({
            let whole = grown(l, more);
            let first = log_part(Some(l), log_start());
            let second = log_part(Some(whole), first.offset);
            &&& first.stdout + second.stdout == whole.stdout
            &&& first.stderr + second.stderr == whole.stderr
        }),
{
    law_log_followed_to_the_end(l, seq![more]);
    let steps = seq![more];
    assert(steps.drop_last() =~= Seq::<LogsView>::empty());
    assert(output_after(l, steps) == grown(l, more)) by {
        reveal_with_fuel(output_after, 2);
    }
    let first = log_part(Some(l), log_start());
    let second = log_part(Some(grown(l, more)), first.offset);
    assert(followed(l, steps).0 == with_part(followed(l, steps.drop_last()).0, second)) by {
        reveal_with_fuel(followed, 2);
    }
    assert(followed(l, steps.drop_last()).0.stdout =~= first.stdout) by {
        reveal_with_fuel(followed, 2);
    }
    assert(followed(l, steps.drop_last()).0.stderr =~= first.stderr) by {
        reveal_with_fuel(followed, 2);
    }
}

/// The output after it has grown some times.
pub open spec fn output_after(l: LogsView, steps: Seq<LogsView>) -> LogsView
    decreases steps.len(),
{
    if steps.len() == 0 {
        l
    } else {
        grown(output_after(l, steps.drop_last()), steps.last())
    }
}

/// What has been fetched, and up to where, when a request is made at first and each time the
/// output has grown, each from where the last part ended.
pub open spec fn followed(l: LogsView, steps: Seq<LogsView>) -> (LogsView, LogOffsetView)
    decreases steps.len(),
{
    if steps.len() == 0 {
        let part = log_part(Some(l), log_start());
        (LogsView { stdout: part.stdout, stderr: part.stderr, eof: part.eof }, part.offset)
    } else {
        let before = followed(l, steps.drop_last());
        let part = log_part(Some(output_after(l, steps)), before.1);
        (with_part(before.0, part), part.offset)
    }
}

/// A container's output that is followed arrives whole: both streams, in whatever parts they come
/// and however they grow.
pub proof fn law_log_followed_to_the_end(l: LogsView, steps: Seq<LogsView>)
    ensures
        followed(l, steps).0 == output_after(l, steps),
        fetched(output_after(l, steps), output_after(l, steps), followed(l, steps).1),
    decreases steps.len(),
{
    let whole = output_after(l, steps);
    if steps.len() == 0 {
        assert(from_offset(l.stdout, 0) =~= l.stdout);
        assert(from_offset(l.stderr, 0) =~= l.stderr);
        assert(l.stdout.take(l.stdout.len() as int) =~= l.stdout);
        assert(l.stderr.take(l.stderr.len() as int) =~= l.stderr);
    } else {
        law_log_followed_to_the_end(l, steps.drop_last());
        let before = output_after(l, steps.drop_last());
        let at = followed(l, steps.drop_last()).1;
        assert(whole.stdout.take(at.stdout as int) =~= before.stdout);
        assert(whole.stderr.take(at.stderr as int) =~= before.stderr);
        law_log_part_completes(before, whole, at);
    }
}

/// The output of a container that is being followed from the host.
#[derive(Debug, Clone, Copy, PartialEq, Eq, Structural)]
pub struct LogStream {
    /// Where the next part starts.
    pub offset: LogOffset,
}

/// The pause between two requests for output, in milliseconds.
pub const LOG_PAUSE_MS: u64 = 10;

impl LogStream {
    /// Follows the output from its start.
    pub fn new() -> (res: Self)
        ensures
            res.offset@ == log_start(),
    {
        LogStream { offset: LogOffset { stdout: 0, stderr: 0 } }
    }

    /// Takes in a part, nothing where the request failed, and says whether there is more to ask
    /// for.
    pub fn take_in(&mut self, part: Option<&LogChunk>) -> (more: bool)
        ensures
            match part {
                Some(c) => final(self).offset == c.offset && more == !c.eof,
                None => *final(self) == *old(self) && !more,
            },
            (final(self).offset@, more) == stream_after(
                old(self).offset@,
                match part {
                    Some(c) => Some(c@),
                    None => None,
                },
            ),
    {
        match part {
            Some(c) => {
                self.offset = c.offset;
                !c.eof
            },
            None => false,
        }
    }
}

/// The exit status of a container as the host learns it: the agent's reply, and where there is
/// none, that of a container that was killed.
pub fn observed_status(reply: Option<u32>) -> (res: u32)
    ensures
        res == match reply {
            Some(s) => s,
            None => 137,
        },
        res == status_seen(reply),
{
    match reply {
        Some(s) => s,
        None => 137,
    }
}

/// How long the agent waits for a container to end, in seconds.
pub const WAIT_TIMEOUT_SECS: u64 = 600;

/// What waiting for a container gave.
#[derive(Debug)]
pub enum WaitEvent {
    /// The status of the container changed to this; nothing where it has none yet.
    Changed(Option<ExitStatus>),
    /// Nobody reports the container's end any more.
    Lost,
    /// The time to wait is over.
    TimedOut,
}

/// How a container ended: by its status, where there is one; else it counts as killed, now.
pub fn wait_container(event: WaitEvent, now: String) -> (res: ExitStatus)
    ensures
        match event {
            WaitEvent::Changed(Some(s)) => res == s,
            _ => res.code == KILLED && res.exited_at@ == now@,
        },
        (res.code, res.exited_at@) == end_seen(event, now@),
{
    match event {
        WaitEvent::Changed(Some(s)) => s,
        _ => ExitStatus { code: KILLED, exited_at: now },
    }
}

/// The exit status that is reported for a code.
pub fn reported_status(code: i32) -> (res: u32)
    ensures
        res == container::unsigned32(code as int),
{
    container::to_unsigned32(code)
}

/// The exit status that is recorded for a container, from what its agent replied.
pub open spec fn status_seen(reply: Option<u32>) -> u32 {
    match reply {
        Some(s) => s,
        None => 137,
    }
}

/// The code and the time of a container's end, from what happened while it was waited for.
pub open spec fn end_seen(event: WaitEvent, now: Seq<char>) -> (i32, Seq<char>) {
    match event {
        WaitEvent::Changed(Some(s)) => (s.code, s.exited_at@),
        _ => (KILLED, now),
    }
}

/// Where a stream of output goes on, and whether it does, after a part of it came.
pub open spec fn stream_after(at: LogOffsetView, part: Option<LogChunkView>) -> (
    LogOffsetView,
    bool,
) {
    match part {
        Some(c) => (c.offset, !c.eof),
        None => (at, false),
    }
}

/// A container that ended has the status it ended with; one that nobody reports any more, or whose
/// end was waited for too long, counts as killed now.
pub proof fn law_ends(s: ExitStatus, n: u32, now: Seq<char>)
    ensures
        end_seen(WaitEvent::Changed(Some(s)), now) == (s.code, s.exited_at@),
        end_seen(WaitEvent::Lost, now) == (137i32, now),
        end_seen(WaitEvent::TimedOut, now) == (137i32, now),
        status_seen(Some(n)) == n,
        status_seen(None) == 128 + 9,
{
}

/// Output is followed from where the last part ended until a part says that it is the last one, or
/// none comes: following what a container wrote gives all of it, and stops at its end.
pub proof fn law_stream_stops_at_end(whole: LogsView, at: LogOffsetView)
    ensures
        stream_after(at, Some(log_part(Some(whole), at))).0 == (LogOffsetView {
            stdout: whole.stdout.len(),
            stderr: whole.stderr.len(),
        }),
        stream_after(at, Some(log_part(Some(whole), at))).1 == !whole.eof,
        stream_after(at, Some(log_part(None, at))).1 == false,
        stream_after(at, None) == (at, false),
{
}

/// A part of the output begins where it was asked for and holds what follows there; behind the end
/// there is nothing. The two streams are told apart.
pub proof fn law_log_part(l: LogsView, at: LogOffsetView, i: int)
    ensures
        ({
            let p = log_part(Some(l), at);
            &&& at.stdout <= l.stdout.len() ==> p.stdout.len() == l.stdout.len() - at.stdout
            &&& at.stdout <= i < l.stdout.len() ==> p.stdout[i - at.stdout] == l.stdout[i]
            &&& at.stdout >= l.stdout.len() ==> p.stdout.len() == 0
            &&& at.stderr <= l.stderr.len() ==> p.stderr.len() == l.stderr.len() - at.stderr
            &&& at.stderr <= i < l.stderr.len() ==> p.stderr[i - at.stderr] == l.stderr[i]
            &&& at.stderr >= l.stderr.len() ==> p.stderr.len() == 0
            &&& p.eof == l.eof
        }),
        log_part(None, at).eof && log_part(None, at).stdout.len() == 0 && log_part(
            None,
            at,
        ).stderr.len() == 0,
{
}

} // verus!
