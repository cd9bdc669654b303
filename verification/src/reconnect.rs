//! Reconnection policy: what may be retried, and how long to wait first.
//!
//! Nothing here opens a socket, sleeps or queues input. The caller supplies the
//! observed failure and performs the wait.
//!
//! The classifier is asymmetric on purpose: a failure that it does not recognize
//! is not retried, and remote text can stop a retry but never start one.
use vstd::arithmetic::power2::{lemma2_to64, lemma_pow2_unfold, lemma_pow2_strictly_increases, pow2};
use vstd::prelude::*;
use crate::clock;
use crate::fault;
use crate::fault::{Cause, Fault, IoKind, Layer};
use crate::ssh;
use crate::text;

verus! {

/// Why an attachment ended. Only `Transport` is retried automatically.
#[derive(Clone, Copy, Debug, PartialEq, Eq, Structural)]
pub enum Failure {
    /// The transport dropped with nothing known to be wrong.
    Transport,
    Authentication,
    HostKey,
    MissingSession,
    /// The remote tmux server exited or restarted underneath the attachment.
    ServerExit,
    /// This control client was detached, here or by another tmux client.
    Detached,
    Configuration,
    Protocol,
}

/// What the user is told about a failure.
pub open spec fn summary_text(failure: Failure) -> Seq<char> {
    match failure {
        Failure::Transport => "The connection dropped."@,
        Failure::Authentication => "Authentication failed. Starcom will not retry it."@,
        Failure::HostKey => "The host key is not trusted. Starcom will not retry it."@,
        Failure::MissingSession => "That tmux session no longer exists. Starcom never creates a replacement."@,
        Failure::ServerExit => "The remote tmux server exited. Any session it held is gone; reattaching would attach to a different server."@,
        Failure::Detached => "tmux ended this control session. Starcom does not reattach on its own, because that happens both when you detach and when the server shuts down."@,
        Failure::Configuration => "The connection settings were rejected."@,
        Failure::Protocol => "The tmux control stream was not usable."@,
    }
}

/// A failure is tried again automatically.
pub open spec fn is_retriable(before: Failure, r: bool) -> bool {
    r == (before == Failure::Transport)
}

impl Failure {
    /// Automatic retry is for transport loss alone.
    pub fn retriable(self) -> (r: bool)
        ensures
            is_retriable(self, r),
    {
        self == Failure::Transport
    }

    /// What the user is told.
    pub fn summary(self) -> (r: &'static str)
        ensures
            r@ == summary_text(self),
    {
        match self {
            Failure::Transport => "The connection dropped.",
            Failure::Authentication => "Authentication failed. Starcom will not retry it.",
            Failure::HostKey => "The host key is not trusted. Starcom will not retry it.",
            Failure::MissingSession => "That tmux session no longer exists. Starcom never creates a replacement.",
            Failure::ServerExit => "The remote tmux server exited. Any session it held is gone; reattaching would attach to a different server.",
            Failure::Detached => "tmux ended this control session. Starcom does not reattach on its own, because that happens both when you detach and when the server shuts down.",
            Failure::Configuration => "The connection settings were rejected.",
            Failure::Protocol => "The tmux control stream was not usable.",
        }
    }
}

/// The failure that an SSH kind stands for.
pub open spec fn ssh_failure(kind: ssh::Kind) -> Failure {
    match kind {
        ssh::Kind::Transport | ssh::Kind::Timeout => Failure::Transport,
        ssh::Kind::Authentication => Failure::Authentication,
        ssh::Kind::UnknownHostKey | ssh::Kind::ChangedHostKey => Failure::HostKey,
        ssh::Kind::Configuration => Failure::Configuration,
    }
}

/// An input/output failure by which a channel shows that it ended.
pub open spec fn channel_ended(kind: IoKind) -> bool {
    kind == IoKind::BrokenPipe || kind == IoKind::ConnectionReset || kind
        == IoKind::ConnectionAborted || kind == IoKind::NotConnected || kind
        == IoKind::UnexpectedEof || kind == IoKind::TimedOut
}

/// What one layer decides by its type, if it decides anything.
pub open spec fn verdict(cause: Cause) -> Option<Failure> {
    match cause {
        Cause::Ssh(kind) => Some(ssh_failure(kind)),
        Cause::Io { inner: Some(kind), .. } => Some(ssh_failure(kind)),
        Cause::Io { kind, inner: None } => if channel_ended(kind) {
            Some(Failure::Transport)
        } else {
            None
        },
        Cause::Message => None,
    }
}

/// The verdict of the outermost layer that has one.
pub open spec fn typed(layers: Seq<Layer>) -> Option<Failure>
    decreases layers.len(),
{
    if layers.len() == 0 {
        None
    } else if verdict(layers[0].cause) is Some {
        verdict(layers[0].cause)
    } else {
        typed(layers.skip(1))
    }
}

/// tmux's own refusals, recognized in text that is already in small letters.
pub open spec fn refusal(lowered: Seq<char>) -> Option<Failure> {
    if text::contains(lowered, "can't find session"@) || text::contains(
        lowered,
        "session not found"@,
    ) || text::contains(lowered, "no such session"@) || text::contains(
        lowered,
        "could not attach that session"@,
    ) {
        Some(Failure::MissingSession)
    } else if text::contains(lowered, "no server running"@) || text::contains(
        lowered,
        "server exited"@,
    ) || text::contains(lowered, "error connecting to"@) {
        Some(Failure::ServerExit)
    } else {
        None
    }
}

/// The classification of a failed attachment or poll: types first; text only
/// where no type decides or to refine transport loss.
pub open spec fn classified(layers: Seq<Layer>) -> Failure {
    let said = refusal(text::lowered(fault::rendered(layers)));
    match typed(layers) {
        Some(Failure::Transport) => match said {
            Some(failure) => failure,
            None => Failure::Transport,
        },
        Some(failure) => failure,
        None => match said {
            Some(failure) => failure,
            None => Failure::Protocol,
        },
    }
}

fn from_ssh(kind: ssh::Kind) -> (r: Failure)
    ensures
        r == ssh_failure(kind),
{
    match kind {
        ssh::Kind::Transport | ssh::Kind::Timeout => Failure::Transport,
        ssh::Kind::Authentication => Failure::Authentication,
        ssh::Kind::UnknownHostKey | ssh::Kind::ChangedHostKey => Failure::HostKey,
        ssh::Kind::Configuration => Failure::Configuration,
    }
}

fn from_cause(cause: Cause) -> (r: Option<Failure>)
    ensures
        r == verdict(cause),
{
    match cause {
        Cause::Ssh(kind) => Some(from_ssh(kind)),
        Cause::Io { inner: Some(kind), .. } => Some(from_ssh(kind)),
        Cause::Io { kind, inner: None } => match kind {
            IoKind::BrokenPipe
            | IoKind::ConnectionReset
            | IoKind::ConnectionAborted
            | IoKind::NotConnected
            | IoKind::UnexpectedEof
            | IoKind::TimedOut => Some(Failure::Transport),
            _ => None,
        },
        Cause::Message => None,
    }
}

/// Recognizes tmux's own refusals. Every classification it returns is one that
/// is not retried.
fn narrow(said: &str) -> (r: Option<Failure>)
    ensures
        r == refusal(text::lowered(said@)),
{
    let low = text::to_lower(said);
    let s = low.as_slice();
    if text::has(s, "can't find session") || text::has(s, "session not found") || text::has(
        s,
        "no such session",
    ) || text::has(s, "could not attach that session") {
        Some(Failure::MissingSession)
    } else if text::has(s, "no server running") || text::has(s, "server exited") || text::has(
        s,
        "error connecting to",
    ) {
        Some(Failure::ServerExit)
    } else {
        None
    }
}

/// Classifies a failed attachment or poll.
///
/// Types decide first. Where no layer is typed, or the type says transport loss,
/// the text is consulted, and it can only make a failure one that is not retried.
pub fn classify(error: &Fault) -> (r: Failure)
    ensures
        r == classified(error.layers@),
{
    let mut found: Option<Failure> = None;
    let mut i: usize = 0;
    assert(error.layers@.skip(0) =~= error.layers@);
    while i < error.layers.len() && found.is_none()
        invariant
            i <= error.layers@.len(),
            found is None ==> typed(error.layers@) == typed(error.layers@.skip(i as int)),
            found is Some ==> typed(error.layers@) == found,
        decreases error.layers@.len() - i,
    {
        assert(error.layers@.skip(i as int).skip(1) =~= error.layers@.skip(i + 1));
        found = from_cause(error.layers[i].cause);
        i = i + 1;
    }
    match found {
        Some(Failure::Transport) => match narrow(error.to_text().as_str()) {
            Some(failure) => failure,
            None => Failure::Transport,
        },
        Some(failure) => failure,
        None => match narrow(error.to_text().as_str()) {
            Some(failure) => failure,
            None => Failure::Protocol,
        },
    }
}

/// The classification of tmux's orderly exit reason.
pub open spec fn exit_failure(reason: Option<Seq<char>>) -> Failure {
    match reason {
        None => Failure::Detached,
        Some(reason) => {
            let low = text::lowered(reason);
            if text::contains(low, "server exited"@) || text::contains(low, "lost server"@) {
                Failure::ServerExit
            } else if text::contains(low, "session destroyed"@) || text::contains(
                low,
                "no such session"@,
            ) {
                Failure::MissingSession
            } else {
                Failure::Detached
            }
        },
    }
}

/// Classifies tmux's orderly `%exit` reason, which tmux sends when the control
/// client is going away for a reason it already knows.
pub fn classify_exit(reason: Option<&str>) -> (r: Failure)
    ensures
        r == exit_failure(
            match reason {
                Some(s) => Some(s@),
                None => None,
            },
        ),
{
    match reason {
        None => Failure::Detached,
        Some(reason) => {
            let low = text::to_lower(reason);
            let s = low.as_slice();
            if text::has(s, "server exited") || text::has(s, "lost server") {
                Failure::ServerExit
            } else if text::has(s, "session destroyed") || text::has(s, "no such session") {
                Failure::MissingSession
            } else {
                Failure::Detached
            }
        },
    }
}

/// Text never starts a retry: a failure is classified as transport loss only
/// where a type in the chain says so.
pub proof fn text_never_starts_a_retry(layers: Seq<Layer>)
    ensures
        classified(layers) == Failure::Transport ==> typed(layers) == Some(Failure::Transport),
{
}

/// Of two chains with the same causes, whatever was said around them, the one
/// that is not retried was stopped by tmux saying that the session or the server
/// is gone; every other classification is the same for both.
pub proof fn text_only_narrows(left: Seq<Layer>, right: Seq<Layer>)
    requires
        left.len() == right.len(),
        forall|i: int| 0 <= i < left.len() ==> left[i].cause == right[i].cause,
    ensures
        typed(left) == typed(right),
        classified(left) == Failure::Transport ==> classified(right) == Failure::Transport
            || classified(right) == Failure::MissingSession || classified(right)
            == Failure::ServerExit,
        typed(left) is Some && typed(left) != Some(Failure::Transport) ==> classified(left)
            == classified(right),
    decreases left.len(),
{
    if left.len() > 0 {
        text_only_narrows_step(left, right);
    }
}

proof fn text_only_narrows_step(left: Seq<Layer>, right: Seq<Layer>)
    requires
        left.len() == right.len(),
        forall|i: int| 0 <= i < left.len() ==> left[i].cause == right[i].cause,
    ensures
        typed(left) == typed(right),
    decreases left.len(),
{
    if left.len() > 0 {
        assert forall|i: int| 0 <= i < left.skip(1).len() implies left.skip(1)[i].cause
            == right.skip(1)[i].cause by {
            assert(left[i + 1].cause == right[i + 1].cause);
        }
        text_only_narrows_step(left.skip(1), right.skip(1));
    }
}

/// A failure that no type and no refusal explains is not retried.
pub proof fn an_unexplained_failure_is_not_retried(layers: Seq<Layer>)
    requires
        typed(layers) is None,
    ensures
        classified(layers) != Failure::Transport,
{
}

/// First wait after a drop, in milliseconds.
pub const FIRST_DELAY_MS: u64 = 500;

/// Ceiling for a single wait, in milliseconds.
pub const MAX_DELAY_MS: u64 = 30_000;

/// Wall time running this far ahead of the monotonic clock is a suspend and not
/// scheduling jitter; in nanoseconds.
pub const SUSPEND_SLACK_NANOS: u128 = 2_000_000_000;

/// The wall clock ran ahead of the monotonic clock.
pub open spec fn ran_ahead(mono: nat, wall: nat, r: bool) -> bool {
    r == (wall > mono + SUSPEND_SLACK_NANOS)
}

/// True when wall time advanced by more than the monotonic clock and its slack,
/// which is what happens across a machine sleep.
pub fn suspend_elapsed(mono: std::time::Duration, wall: std::time::Duration) -> (r: bool)
    ensures
        ran_ahead(clock::nanos(mono), clock::nanos(wall), r),
{
    let wall_nanos: u128 = wall.as_nanos();
    let mono_nanos: u128 = mono.as_nanos();
    wall_nanos > SUSPEND_SLACK_NANOS && wall_nanos - SUSPEND_SLACK_NANOS > mono_nanos
}

/// The last time this attachment did successful I/O, in both clock domains.
#[derive(Clone, Copy, Debug)]
pub struct AliveClock {
    pub instant: std::time::Instant,
    pub wall: std::time::SystemTime,
}

impl AliveClock {
    /// The machine slept since, if the clocks now read this: the wall clock ran
    /// ahead of the monotonic clock by more than its slack. A wall clock that
    /// went backwards did not advance.
    pub open spec fn slept(self, now: std::time::Instant, wall: std::time::SystemTime) -> bool {
        let advanced: nat = match clock::wall_between(wall, self.wall) {
            Some(span) => span,
            None => 0,
        };
        advanced > clock::between(now, self.instant) + SUSPEND_SLACK_NANOS
    }

    /// Reads both clocks. Nothing is promised of what they read; `at` says what is
    /// made of it.
    pub fn now() -> Self {
        Self::at(clock::now(), clock::wall())
    }

    /// The time of successful I/O, by what the two clocks read then.
    pub fn at(instant: std::time::Instant, wall: std::time::SystemTime) -> (r: Self)
        ensures
            r == (AliveClock { instant, wall }),
    {
        AliveClock { instant, wall }
    }

    /// Whether the machine slept since, by what the two clocks read now.
    pub fn suspended(self) -> (r: bool)
        ensures
            exists|now: std::time::Instant, wall: std::time::SystemTime|
                r == #[trigger] self.slept(now, wall),
    {
        let now = clock::now();
        let wall = clock::wall();
        self.suspended_at(now, wall)
    }

    /// Whether the machine slept since, by what the two clocks read. It did not while
    /// the wall clock reads what it read then, nor if that went backwards.
    pub fn suspended_at(self, now: std::time::Instant, wall: std::time::SystemTime) -> (r: bool)
        ensures
            r == self.slept(now, wall),
            wall == self.wall ==> !r,
            clock::wall_between(wall, self.wall) is None ==> !r,
    {
        let mono = clock::since(now, self.instant);
        match clock::wall_since(wall, self.wall) {
            Some(span) => suspend_elapsed(mono, span),
            None => suspend_elapsed(mono, std::time::Duration::from_millis(0)),
        }
    }
}

/// A wall clock that went backwards is no sleep, and neither is one that ran no
/// further ahead than its slack.
pub proof fn a_sleep_needs_a_wall_clock_that_ran_ahead(
    alive: AliveClock,
    now: std::time::Instant,
    wall: std::time::SystemTime,
)
    ensures
        alive.slept(now, wall) ==> clock::wall_between(wall, alive.wall) is Some
            && clock::wall_between(wall, alive.wall)->0 > SUSPEND_SLACK_NANOS,
        clock::wall_between(wall, alive.wall) is None ==> !alive.slept(now, wall),
        clock::wall_between(wall, alive.wall) == Some(0nat) ==> !alive.slept(now, wall),
{
}

/// A backoff schedule's state: attempts made so far, and the jitter generator.
pub struct Schedule {
    pub attempt: u32,
    pub jitter: u64,
}

/// The delay before jitter at a given attempt, in milliseconds: the first delay
/// doubled once for each attempt after the first, at most sixteen times, and
/// never above the ceiling.
pub open spec fn base_delay(attempt: u32) -> nat {
    let doublings: nat = if attempt <= 1 {
        0
    } else if attempt <= 17 {
        (attempt - 1) as nat
    } else {
        16
    };
    let grown = FIRST_DELAY_MS as nat * pow2(doublings);
    if grown <= MAX_DELAY_MS {
        grown
    } else {
        MAX_DELAY_MS as nat
    }
}

/// One step of the xorshift generator.
pub open spec fn xorshift(x: u64) -> u64 {
    let a = x ^ (x << 13);
    let b = a ^ (a >> 7);
    b ^ (b << 17)
}

/// The attempt after `attempt`, which stays at the largest number.
pub open spec fn next_attempt(attempt: u32) -> u32 {
    if attempt < u32::MAX {
        (attempt + 1) as u32
    } else {
        u32::MAX
    }
}

/// The schedule after one more delay.
pub open spec fn advanced(s: Schedule) -> Schedule {
    Schedule { attempt: next_attempt(s.attempt), jitter: xorshift(s.jitter) }
}

/// The next delay in milliseconds: within a quarter of the base delay either way,
/// picked by the generator, then held between one millisecond and the ceiling.
pub open spec fn delay_of(s: Schedule) -> nat {
    let base = base_delay(next_attempt(s.attempt));
    let spread = base / 2;
    let jittered = (base - spread / 2 + xorshift(s.jitter) as nat % (spread + 1)) as nat;
    if jittered < 1 {
        1
    } else if jittered > MAX_DELAY_MS {
        MAX_DELAY_MS as nat
    } else {
        jittered
    }
}

/// Exponential backoff with deterministic jitter of a quarter either way.
///
/// It never gives up on its own: a retry loop ends because the user cancelled it
/// or because the failure stopped being retriable.
pub struct Backoff {
    attempt: u32,
    state: u64,
}

impl View for Backoff {
    type V = Schedule;

    closed spec fn view(&self) -> Schedule {
        Schedule { attempt: self.attempt, jitter: self.state }
    }
}

impl Backoff {
    /// `seed` only decorrelates the jitter between tabs. The generator never
    /// starts at zero, where it would stay.
    pub fn new(seed: u64) -> (r: Self)
        ensures
            r@ == (Schedule { attempt: 0, jitter: seed | 1 }),
            r@.jitter != 0,
    {
        assert(seed | 1 != 0) by (bit_vector);
        Backoff { attempt: 0, state: seed | 1 }
    }

    /// How many attempts have been scheduled.
    pub fn attempt(&self) -> (r: u32)
        ensures
            r == self@.attempt,
    {
        self.attempt
    }

    /// A fully restored attachment starts the schedule over.
    pub fn reset(&mut self)
        ensures
            final(self)@ == (Schedule { attempt: 0, jitter: old(self)@.jitter }),
    {
        self.attempt = 0;
    }

    /// The next delay; the schedule moves on by one attempt.
    pub fn next_delay(&mut self) -> (r: std::time::Duration)
        ensures
            final(self)@ == advanced(old(self)@),
            clock::nanos(r) == delay_of(old(self)@) * 1_000_000,
    {
        if self.attempt < u32::MAX {
            self.attempt = self.attempt + 1;
        }
        let steps: u32 = if self.attempt <= 1 {
            0
        } else if self.attempt <= 17 {
            self.attempt - 1
        } else {
            16
        };
        let base: u64 = grown_delay(steps);
        self.state = self.state ^ (self.state << 13);
        self.state = self.state ^ (self.state >> 7);
        self.state = self.state ^ (self.state << 17);
        let spread: u64 = base / 2;
        let picked: u64 = self.state % (spread + 1);
        let jittered: u64 = base - spread / 2 + picked;
        let floored: u64 = if jittered < 1 {
            1
        } else {
            jittered
        };
        let bounded: u64 = if floored > MAX_DELAY_MS {
            MAX_DELAY_MS
        } else {
            floored
        };
        std::time::Duration::from_millis(bounded)
    }
}

fn grown_delay(doublings: u32) -> (r: u64)
    requires
        doublings <= 16,
    ensures
        r == ({
            let grown = FIRST_DELAY_MS as nat * pow2(doublings as nat);
            if grown <= MAX_DELAY_MS {
                grown
            } else {
                MAX_DELAY_MS as nat
            }
        }),
        r <= MAX_DELAY_MS,
{
    let mut grown: u64 = FIRST_DELAY_MS;
    proof {
        lemma2_to64();
    }
    for i in 0..doublings
        invariant
            doublings <= 16,
            grown == FIRST_DELAY_MS * pow2(i as nat),
            grown <= 500 * 65536,
    {
        proof {
            lemma2_to64();
            lemma_pow2_unfold((i + 1) as nat);
            if i + 1 < 16 {
                lemma_pow2_strictly_increases((i + 1) as nat, 16);
            }
            assert(pow2((i + 1) as nat) <= 65536);
            assert(FIRST_DELAY_MS * pow2((i + 1) as nat) == grown * 2) by (nonlinear_arith)
                requires
                    grown == FIRST_DELAY_MS * pow2(i as nat),
                    pow2((i + 1) as nat) == 2 * pow2(i as nat),
            ;
            assert(grown * 2 <= 500 * 65536) by (nonlinear_arith)
                requires
                    grown * 2 == FIRST_DELAY_MS * pow2((i + 1) as nat),
                    pow2((i + 1) as nat) <= 65536,
                    FIRST_DELAY_MS == 500,
            ;
        }
        grown = grown * 2;
    }
    if grown <= MAX_DELAY_MS {
        grown
    } else {
        MAX_DELAY_MS
    }
}

/// Every delay is at least a millisecond, never above the ceiling, and within a
/// quarter of its base delay.
pub proof fn delays_stay_bounded(s: Schedule)
    ensures
        1 <= delay_of(s) <= MAX_DELAY_MS,
        4 * delay_of(s) >= 3 * base_delay(next_attempt(s.attempt)),
        4 * delay_of(s) <= 5 * base_delay(next_attempt(s.attempt)),
{
    let attempt = next_attempt(s.attempt);
    lemma_base_delay(attempt);
    let base = base_delay(attempt);
    let spread = base / 2;
    let picked = xorshift(s.jitter) as nat % (spread + 1);
    assert(0 <= picked <= spread);
}

/// The base delay is never shorter than the first delay nor above the ceiling, and
/// has whole quarters.
proof fn lemma_base_delay(attempt: u32)
    ensures
        FIRST_DELAY_MS <= base_delay(attempt) <= MAX_DELAY_MS,
        base_delay(attempt) % 4 == 0,
{
    let doublings: nat = if attempt <= 1 {
        0
    } else if attempt <= 17 {
        (attempt - 1) as nat
    } else {
        16
    };
    lemma2_to64();
    if doublings > 0 {
        lemma_pow2_strictly_increases(0, doublings);
    }
    let power = pow2(doublings);
    assert(FIRST_DELAY_MS as nat * power >= FIRST_DELAY_MS) by (nonlinear_arith)
        requires
            power >= 1,
    ;
    assert(FIRST_DELAY_MS as nat * power == 4 * (125 * power)) by (nonlinear_arith)
        requires
            FIRST_DELAY_MS == 500,
    ;
}

/// Base delays grow with the attempts until they reach the ceiling.
pub proof fn base_delays_grow(fewer: u32, more: u32)
    requires
        fewer <= more,
    ensures
        base_delay(fewer) <= base_delay(more),
{
    let doublings = |a: u32| -> nat
        {
            if a <= 1 {
                0nat
            } else if a <= 17 {
                (a - 1) as nat
            } else {
                16nat
            }
        };
    let x = doublings(fewer);
    let y = doublings(more);
    if x < y {
        lemma_pow2_strictly_increases(x, y);
    }
    assert(FIRST_DELAY_MS as nat * pow2(x) <= FIRST_DELAY_MS as nat * pow2(y)) by (nonlinear_arith)
        requires
            pow2(x) <= pow2(y),
    ;
}

/// The generator never reaches zero, where it would stay, once it is not there.
pub proof fn the_generator_never_stalls(x: u64)
    requires
        x != 0,
    ensures
        xorshift(x) != 0,
{
    let a = x ^ (x << 13);
    let b = a ^ (a >> 7);
    assert(x != 0 ==> x ^ (x << 13) != 0) by (bit_vector);
    assert(a != 0 ==> a ^ (a >> 7) != 0) by (bit_vector);
    assert(b != 0 ==> b ^ (b << 17) != 0) by (bit_vector);
}

/// After a reset, whatever came before, the next delay is within a quarter of
/// the first delay again.
pub proof fn a_reset_schedule_starts_over(s: Schedule)
    requires
        s.attempt == 0,
    ensures
        advanced(s).attempt == 1,
        375 <= delay_of(s) <= 625,
{
    lemma2_to64();
    assert(base_delay(1) == 500);
    let picked = xorshift(s.jitter) as nat % 251;
    assert(0 <= picked <= 250);
}

/// A transport that is lost or too slow is transport loss; a refused login, a host that
/// is not trusted and settings that were rejected are each what they are, and are never
/// retried.
pub proof fn each_ssh_failure_is_what_it_is()
    ensures
        ssh_failure(ssh::Kind::Transport) == Failure::Transport,
        ssh_failure(ssh::Kind::Timeout) == Failure::Transport,
        ssh_failure(ssh::Kind::Authentication) == Failure::Authentication,
        ssh_failure(ssh::Kind::UnknownHostKey) == Failure::HostKey,
        ssh_failure(ssh::Kind::ChangedHostKey) == Failure::HostKey,
        ssh_failure(ssh::Kind::Configuration) == Failure::Configuration,
{
}

/// A channel shows that it ended by a broken pipe, a connection that was reset, aborted
/// or is not there, an unexpected end or a timeout, and by nothing else.
pub proof fn how_a_channel_shows_that_it_ended(kind: IoKind)
    ensures
        channel_ended(kind) <==> (match kind {
            IoKind::BrokenPipe
            | IoKind::ConnectionReset
            | IoKind::ConnectionAborted
            | IoKind::NotConnected
            | IoKind::UnexpectedEof
            | IoKind::TimedOut => true,
            IoKind::WouldBlock
            | IoKind::Interrupted
            | IoKind::PermissionDenied
            | IoKind::Other => false,
        }),
{
}

/// A layer decides by its type: an SSH failure as what it is, also inside an
/// input/output failure; an input/output failure only where it shows that the channel
/// ended; text decides nothing.
pub proof fn what_a_layer_decides(kind: ssh::Kind, io: IoKind)
    ensures
        verdict(Cause::Ssh(kind)) == Some(ssh_failure(kind)),
        verdict(Cause::Io { kind: io, inner: Some(kind) }) == Some(ssh_failure(kind)),
        channel_ended(io) ==> verdict(Cause::Io { kind: io, inner: None }) == Some(
            Failure::Transport,
        ),
        !channel_ended(io) ==> verdict(Cause::Io { kind: io, inner: None }) is None,
        verdict(Cause::Message) is None,
{
}

/// The outermost layer that decides anything decides.
pub proof fn the_outermost_verdict_counts(layers: Seq<Layer>, n: int)
    requires
        0 <= n <= layers.len(),
        forall|i: int| 0 <= i < n ==> verdict((#[trigger] layers[i]).cause) is None,
    ensures
        n < layers.len() && verdict(layers[n].cause) is Some ==> typed(layers) == verdict(
            layers[n].cause,
        ),
        n == layers.len() ==> typed(layers) is None,
    decreases n,
{
    if n > 0 {
        assert(verdict(layers[0].cause) is None);
        let rest = layers.skip(1);
        assert forall|i: int| 0 <= i < n - 1 implies verdict((#[trigger] rest[i]).cause) is None by {
            assert(verdict(layers[i + 1].cause) is None);
        }
        the_outermost_verdict_counts(rest, n - 1);
        if n < layers.len() {
            assert(rest[n - 1] == layers[n]);
        }
    }
}

/// A login that was refused, an untrusted host and rejected settings stay that,
/// whatever else is said.
pub proof fn a_typed_failure_stays_what_it_is(layers: Seq<Layer>)
    ensures
        typed(layers) == Some(Failure::Authentication) ==> classified(layers)
            == Failure::Authentication,
        typed(layers) == Some(Failure::HostKey) ==> classified(layers) == Failure::HostKey,
        typed(layers) == Some(Failure::Configuration) ==> classified(layers)
            == Failure::Configuration,
{
}

/// Where tmux said nothing that is recognized, transport loss stays transport loss,
/// and what no type explains is a protocol failure.
pub proof fn an_unremarked_failure_is_its_type(layers: Seq<Layer>)
    requires
        refusal(text::lowered(fault::rendered(layers))) is None,
    ensures
        typed(layers) == Some(Failure::Transport) ==> classified(layers) == Failure::Transport,
        typed(layers) is None ==> classified(layers) == Failure::Protocol,
{
}

/// tmux saying anywhere that the session is missing, or otherwise that the server is
/// gone, is what counts where transport was lost or no type explains the failure.
pub proof fn what_tmux_says_is_recognized(layers: Seq<Layer>)
    requires
        typed(layers) is None || typed(layers) == Some(Failure::Transport),
    ensures
        ({
            let said = text::lowered(fault::rendered(layers));
            let missing = text::contains(said, "can't find session"@) || text::contains(
                said,
                "session not found"@,
            ) || text::contains(said, "no such session"@) || text::contains(
                said,
                "could not attach that session"@,
            );
            let gone = text::contains(said, "no server running"@) || text::contains(
                said,
                "server exited"@,
            ) || text::contains(said, "error connecting to"@);
            &&& missing ==> classified(layers) == Failure::MissingSession
            &&& !missing && gone ==> classified(layers) == Failure::ServerExit
            &&& !missing && !gone ==> classified(layers) == Failure::Transport || classified(layers)
                == Failure::Protocol
        }),
{
}

/// An orderly end is a detachment, unless tmux says that the server exited or was lost,
/// or that the session is gone.
pub proof fn what_an_orderly_end_means(reason: Seq<char>)
    ensures
        exit_failure(None) == Failure::Detached,
        ({
            let low = text::lowered(reason);
            let server = text::contains(low, "server exited"@) || text::contains(
                low,
                "lost server"@,
            );
            let session = text::contains(low, "session destroyed"@) || text::contains(
                low,
                "no such session"@,
            );
            &&& server ==> exit_failure(Some(reason)) == Failure::ServerExit
            &&& !server && session ==> exit_failure(Some(reason)) == Failure::MissingSession
            &&& !server && !session ==> exit_failure(Some(reason)) == Failure::Detached
        }),
        exit_failure(Some(reason)) != Failure::Transport,
{
}

/// The first wait is half a second, each further one twice as long as the one before,
/// and none is longer than half a minute.
pub proof fn waits_double_up_to_the_ceiling(attempt: u32)
    requires
        1 <= attempt < u32::MAX,
    ensures
        base_delay(1) == 500,
        base_delay((attempt + 1) as u32) == (if 2 * base_delay(attempt) <= 30_000 {
            2 * base_delay(attempt)
        } else {
            30_000
        }),
{
    lemma2_to64();
    if attempt < 17 {
        lemma_pow2_unfold(attempt as nat);
        if attempt >= 7 {
            if attempt > 7 {
                lemma_pow2_strictly_increases(6, (attempt - 1) as nat);
            }
            lemma_pow2_strictly_increases(6, attempt as nat);
        }
    } else {
        lemma_pow2_strictly_increases(6, 16);
    }
}

/// The machine slept exactly if the wall clock ran more than two seconds ahead of the
/// monotonic clock.
pub proof fn two_seconds_are_no_sleep(
    alive: AliveClock,
    now: std::time::Instant,
    wall: std::time::SystemTime,
)
    ensures
        clock::wall_between(wall, alive.wall) is Some ==> (alive.slept(now, wall)
            <==> clock::wall_between(wall, alive.wall)->0 > clock::between(now, alive.instant)
            + 2_000_000_000),
{
}

/// Each attempt counts for one, up to the largest number.
pub proof fn attempts_are_counted(s: Schedule)
    ensures
        s.attempt < u32::MAX ==> advanced(s).attempt == s.attempt + 1,
        s.attempt == u32::MAX ==> advanced(s).attempt == u32::MAX,
{
}

/// The user is told what each failure is, and of those that are not retried that they
/// are not.
pub proof fn the_user_is_told_what_failed()
    ensures
        summary_text(Failure::Transport) == "The connection dropped."@,
        summary_text(Failure::Authentication)
            == "Authentication failed. Starcom will not retry it."@,
        summary_text(Failure::HostKey)
            == "The host key is not trusted. Starcom will not retry it."@,
        summary_text(Failure::MissingSession)
            == "That tmux session no longer exists. Starcom never creates a replacement."@,
        summary_text(Failure::ServerExit)
            == "The remote tmux server exited. Any session it held is gone; reattaching would attach to a different server."@,
        summary_text(Failure::Detached)
            == "tmux ended this control session. Starcom does not reattach on its own, because that happens both when you detach and when the server shuts down."@,
        summary_text(Failure::Configuration) == "The connection settings were rejected."@,
        summary_text(Failure::Protocol) == "The tmux control stream was not usable."@,
{
}

/// Transport loss is tried again automatically, and nothing else is.
pub proof fn only_transport_loss_is_retriable(failure: Failure, r: bool)
    requires
        is_retriable(failure, r),
    ensures
        r <==> (match failure {
            Failure::Transport => true,
            Failure::Authentication
            | Failure::HostKey
            | Failure::MissingSession
            | Failure::ServerExit
            | Failure::Detached
            | Failure::Configuration
            | Failure::Protocol => false,
        }),
{
}

/// A wall clock that is up to two seconds ahead is no sleep, and one further ahead is.
pub proof fn more_than_two_seconds_are_a_sleep(mono: nat, wall: nat, r: bool)
    requires
        ran_ahead(mono, wall, r),
    ensures
        wall <= mono + 2_000_000_000 ==> !r,
        wall > mono + 2_000_000_000 ==> r,
{
}

} // verus!
