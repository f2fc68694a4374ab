//! The handshake with which a host reaches the guest agent through Cloud Hypervisor's vsock
//! socket, and how often it is tried.

use crate::text;
use vstd::prelude::*;

verus! {

/// Client for communicating with the guest agent over vsock.
#[derive(Debug)]
pub struct VsockClient {
    socket_path: String,
}

impl VsockClient {
    /// The path of the host's socket.
    pub closed spec fn path(&self) -> Seq<char> {
        self.socket_path@
    }

    /// A client for the host's socket at a path.
    pub fn new(socket_path: &str) -> (res: Self)
        ensures
            res.path() == socket_path@,
    {
        VsockClient { socket_path: socket_path.to_owned() }
    }

    /// The path of the host's socket.
    pub fn socket_path(&self) -> (res: &str)
        ensures
            res@ == self.path(),
    {
        self.socket_path.as_str()
    }
}

/// The line that asks for a connection to a guest port.
pub open spec fn connect_line(port: nat) -> Seq<char> {
    "CONNECT "@ + text::dec(port) + "\n"@
}

/// The line that asks for a connection to the agent.
pub fn connect_command() -> (res: String)
    ensures
        res@ == connect_line(crate::AGENT_VSOCK_PORT as nat),
{
    let port: String = text::decimal(crate::AGENT_VSOCK_PORT as u64);
    text::join3("CONNECT ", port.as_str(), "\n")
}

/// Reads the answer to a connection request: what it says, where it refuses.
pub fn vsock_connect(response: &str) -> (res: Result<(), String>)
    ensures
        match res {
            Ok(()) => text::has_prefix(response@, "OK"@),
            Err(e) => !text::has_prefix(response@, "OK"@) && e@ == text::trimmed(response@),
        },
        res is Ok <==> says_ok(response@),
{
    if text::starts_with(response, "OK") {
        Ok(())
    } else {
        Err(text::trim(response))
    }
}

/// Whether the bytes that answered a connection request show that the agent listens.
pub fn agent_healthy(answer: &[u8]) -> (res: bool)
    ensures
        res == (answer@.len() > 0 && text::has_prefix(text::lossy(answer@), "OK"@)),
        res == (answer@.len() > 0 && says_ok(text::lossy(answer@))),
{
    if answer.len() == 0 {
        return false;
    }
    let t: String = text::from_utf8_lossy(answer);
    text::starts_with(t.as_str(), "OK")
}

/// How often a connection to the agent is tried.
pub const CONNECT_ATTEMPTS: u32 = 10;

/// The delay after the first failure, in milliseconds.
pub const BASE_DELAY_MS: u64 = 200;

/// The largest delay before jitter, in milliseconds.
pub const MAX_DELAY_MS: u64 = 3000;

/// How long connecting may take altogether, in milliseconds.
pub const CONNECT_DEADLINE_MS: u64 = 60000;

/// The delay after a failed attempt, before jitter: it doubles each time, up to the largest.
pub open spec fn backoff(attempt: nat) -> nat
    decreases attempt,
{
    if attempt == 0 {
        BASE_DELAY_MS as nat
    } else if 2 * backoff((attempt - 1) as nat) < MAX_DELAY_MS {
        2 * backoff((attempt - 1) as nat)
    } else {
        MAX_DELAY_MS as nat
    }
}

/// A percentage from 0 to 99 that differs from process to process and attempt to attempt.
pub open spec fn jitter(pid: u32, attempt: u32) -> u64 {
    (pid as u64).wrapping_mul(((attempt as u64) + 1) as u64).wrapping_add(0x517cc1b727220a95) % 100
}

/// Whether a delay times `0.5 + percent / 100` comes out below the whole number of milliseconds that
/// it is. A binary fraction of 53 digits holds that factor only nearly, and where it is too small,
/// the part behind the point is cut off a millisecond early.
pub open spec fn falls_short(delay: nat, percent: nat) -> bool {
    ||| percent == 8 || percent == 41 || percent == 57 || percent == 59
    ||| percent == 61 || percent == 63 || percent == 65 || percent == 82
    ||| delay == MAX_DELAY_MS && (percent == 18 || percent == 84 || percent == 86)
}

/// Half of the delay, and the jitter's share of it.
pub open spec fn jittered(delay: nat, percent: nat) -> int {
    delay * (50 + percent) / 100 - if falls_short(delay, percent) {
        1int
    } else {
        0
    }
}

fn backoff_ms(attempt: u32) -> (res: u64)
    ensures
        res == backoff(attempt as nat),
        BASE_DELAY_MS <= res <= MAX_DELAY_MS,
    decreases attempt,
{
    if attempt == 0 {
        BASE_DELAY_MS
    } else {
        let d: u64 = backoff_ms(attempt - 1);
        if 2 * d < MAX_DELAY_MS {
            2 * d
        } else {
            MAX_DELAY_MS
        }
    }
}

/// The delay before the next attempt to connect, after the attempt with this number failed;
/// nothing where there is to be no other. Attempts count from zero.
pub fn retry_delay(attempt: u32, pid: u32, elapsed_ms: u64) -> (res: Option<u64>)
    ensures
        res == if attempt + 1 < CONNECT_ATTEMPTS && elapsed_ms < CONNECT_DEADLINE_MS {
            Some(jittered(backoff(attempt as nat), jitter(pid, attempt) as nat) as u64)
        } else {
            None
        },
        res matches Some(d) ==> BASE_DELAY_MS / 2 <= d < 2 * MAX_DELAY_MS,
        res is Some <==> tries_again(attempt as nat, elapsed_ms),
{
    if attempt >= CONNECT_ATTEMPTS - 1 || elapsed_ms >= CONNECT_DEADLINE_MS {
        return None;
    }
    let d: u64 = backoff_ms(attempt);
    let seed: u64 = (pid as u64).wrapping_mul(attempt as u64 + 1).wrapping_add(0x517cc1b727220a95);
    let percent: u64 = seed % 100;
    assert(d * (50 + percent) <= 3000 * 149) by (nonlinear_arith)
        requires
            d <= 3000,
            percent <= 99,
    ;
    assert(d * (50 + percent) >= 200 * 50) by (nonlinear_arith)
        requires
            d >= 200,
            percent >= 0,
    ;
    let short: bool = percent == 8 || percent == 41 || percent == 57 || percent == 59 || percent
        == 61 || percent == 63 || percent == 65 || percent == 82 || (d == MAX_DELAY_MS && (percent
        == 18 || percent == 84 || percent == 86));
    let whole: u64 = d * (50 + percent) / 100;
    if short {
        assert(d * (50 + percent) >= 200 * 58) by (nonlinear_arith)
            requires
                d >= 200,
                percent >= 8,
        ;
        Some(whole - 1)
    } else {
        Some(whole)
    }
}

/// The delay grows with each attempt until it reaches the largest, and jitter moves it by at most
/// half.
pub proof fn law_backoff(attempt: nat, percent: nat)
    requires
        percent < 100,
    ensures
        backoff(attempt) <= backoff(attempt + 1) <= MAX_DELAY_MS,
        jittered(backoff(attempt), percent) >= backoff(attempt) / 2,
        jittered(backoff(attempt), percent) < backoff(attempt) + backoff(attempt) / 2 + 1,
    decreases attempt,
{
    lemma_backoff_bounds(attempt);
    lemma_backoff_bounds(attempt + 1);
    let d = backoff(attempt);
    assert(d * (50 + percent) == d * 50 + d * percent) by (nonlinear_arith);
    assert(0 <= d * percent <= d * 99) by (nonlinear_arith)
        requires
            percent <= 99,
            d >= 0,
    ;
    if falls_short(d, percent) {
        assert(d * percent >= 200 * 8) by (nonlinear_arith)
            requires
                d >= 200,
                percent >= 8,
        ;
    }
}

proof fn lemma_backoff_bounds(attempt: nat)
    ensures
        BASE_DELAY_MS <= backoff(attempt) <= MAX_DELAY_MS,
    decreases attempt,
{
    if attempt > 0 {
        lemma_backoff_bounds((attempt - 1) as nat);
    }
}

/// The pause before another attempt doubles from a fifth of a second on, up to three seconds.
pub proof fn law_backoff_doubles(attempt: nat)
    ensures
        backoff(0) == 200,
        backoff(attempt + 1) == if 2 * backoff(attempt) < 3000 {
            2 * backoff(attempt)
        } else {
            3000
        },
        attempt < 4 ==> backoff(attempt) < 3000,
        attempt >= 4 ==> backoff(attempt) == 3000,
    decreases attempt,
{
    reveal_with_fuel(backoff, 5);
    if attempt > 4 {
        law_backoff_doubles((attempt - 1) as nat);
    }
}

/// The pause is made longer or shorter by up to a half, in hundredths: the percentage of the pause
/// that it comes to is between 50 and 149, rounded down, and at most one millisecond short of it.
pub proof fn law_jittered(delay: nat, percent: nat)
    requires
        percent < 100,
    ensures
        100 * jittered(delay, percent) <= delay * (50 + percent) < 100 * (jittered(delay, percent)
            + 2),
{
    let x = delay * (50 + percent);
    assert(100 * (x / 100) <= x < 100 * (x / 100) + 100);
}

/// The agent is asked for on its port, in one line.
pub proof fn law_connect_line(port: nat)
    ensures
        connect_line(port) == seq!['C', 'O', 'N', 'N', 'E', 'C', 'T', ' '] + text::dec(port)
            + seq!['\n'],
        crate::AGENT_VSOCK_PORT == 10789,
{
    reveal_strlit("CONNECT ");
    reveal_strlit("\n");
    assert("CONNECT "@ =~= seq!['C', 'O', 'N', 'N', 'E', 'C', 'T', ' ']);
    assert("\n"@ =~= seq!['\n']);
}

/// Whether an answer says that all is well.
pub open spec fn says_ok(answer: Seq<char>) -> bool {
    text::has_prefix(answer, "OK"@)
}

/// Whether a connection is tried again after a failed attempt. The attempts count from zero.
pub open spec fn tries_again(attempt: nat, elapsed_ms: u64) -> bool {
    attempt + 1 < CONNECT_ATTEMPTS && elapsed_ms < CONNECT_DEADLINE_MS
}

/// An answer says that all is well exactly where it begins with the two letters for it.
pub proof fn law_says_ok(answer: Seq<char>)
    ensures
        says_ok(answer) <==> answer.len() >= 2 && answer[0] == 'O' && answer[1] == 'K',
{
    reveal_strlit("OK");
    assert("OK"@ =~= seq!['O', 'K']);
    if answer.len() >= 2 {
        let w = answer.subrange(0, 2);
        assert(w[0] == answer[0] && w[1] == answer[1]);
        if answer[0] == 'O' && answer[1] == 'K' {
            assert(w =~= "OK"@);
        }
    }
}

/// A connection is tried ten times at most, and not once a minute has passed.
pub proof fn law_attempts_end(attempt: nat, elapsed_ms: u64)
    ensures
        attempt < 9 && elapsed_ms < 60 * 1000 ==> tries_again(attempt, elapsed_ms),
        attempt >= 9 ==> !tries_again(attempt, elapsed_ms),
        elapsed_ms >= 60 * 1000 ==> !tries_again(attempt, elapsed_ms),
{
}

} // verus!
