//! When a lost session is taken up again, and what is said about it.

use vstd::prelude::*;

use crate::session::{self, ErrorView, SessionError};
use crate::transport::TransportErrorKind;

verus! {

/// The first delay between two attempts, in seconds.
pub const FIRST_DELAY: u64 = 5;

/// The longest delay between two attempts, in seconds.
pub const CEILING: u64 = 120;

/// A session that held this long counts as working, in milliseconds.
pub const STABLE_SESSION_MS: u64 = 60_000;

/// How long a wait goes on before it looks for a stop request, in milliseconds.
pub const SLEEP_STEP_MS: u64 = 100;

/// The delay that follows a delay: twice as long, up to the ceiling.
pub open spec fn doubled(delay: nat) -> nat {
    if 2 * delay <= CEILING {
        2 * delay
    } else {
        CEILING as nat
    }
}

/// The delay before attempt `n`, counted from zero, of an outage.
pub open spec fn delay_before(n: nat) -> nat
    decreases n,
{
    if n == 0 {
        FIRST_DELAY as nat
    } else {
        doubled(delay_before((n - 1) as nat))
    }
}

/// The delay between automatic attempts: quick at first, and never a flood in a long outage.
pub struct ReconnectBackoff {
    next: u64,
}

impl View for ReconnectBackoff {
    type V = nat;

    /// The delay that comes next, in seconds.
    closed spec fn view(&self) -> nat {
        self.next as nat
    }
}

impl ReconnectBackoff {
    #[verifier::type_invariant]
    spec fn in_range(self) -> bool {
        FIRST_DELAY <= self.next <= CEILING
    }

    pub fn new() -> (backoff: Self)
        ensures
            backoff@ == FIRST_DELAY,
    {
        ReconnectBackoff { next: FIRST_DELAY }
    }

    /// Back to the first delay, after a session that held.
    pub fn reset(&mut self)
        ensures
            final(self)@ == FIRST_DELAY,
    {
        self.next = FIRST_DELAY;
    }

    /// The delay to use now; the one after it is longer.
    pub fn next_delay(&mut self) -> (delay: u64)
        ensures
            delay == old(self)@,
            FIRST_DELAY <= delay <= CEILING,
            final(self)@ == doubled(old(self)@),
    {
        proof {
            use_type_invariant(&*self);
        }
        let current: u64 = self.next;
        self.next = if current * 2 <= CEILING {
            current * 2
        } else {
            CEILING
        };
        current
    }
}

/// Whether an error can go away by itself.
pub open spec fn recoverable(error: ErrorView) -> bool {
    match error {
        ErrorView::NoResponse(_) => true,
        ErrorView::Transport(kind) => match kind {
            TransportErrorKind::TimedOut => true,
            TransportErrorKind::WouldBlock => true,
            TransportErrorKind::Interrupted => true,
            TransportErrorKind::ConnectionReset => true,
            TransportErrorKind::ConnectionAborted => true,
            TransportErrorKind::ConnectionRefused => true,
            TransportErrorKind::NotConnected => true,
            TransportErrorKind::AddrNotAvailable => true,
            TransportErrorKind::NetworkDown => true,
            TransportErrorKind::NetworkUnreachable => true,
            TransportErrorKind::HostUnreachable => true,
            TransportErrorKind::AddrInUse => false,
            TransportErrorKind::PermissionDenied => false,
            TransportErrorKind::Unlisted(_) => false,
        },
        _ => false,
    }
}

/// Whether an error is worth another attempt.
pub fn retryable_error(error: &SessionError) -> (yes: bool)
    ensures
        yes == recoverable(error@),
{
    match error {
        SessionError::NoResponse(_) => true,
        SessionError::Transport(kind) => match kind {
            TransportErrorKind::AddrInUse
            | TransportErrorKind::PermissionDenied
            | TransportErrorKind::Unlisted(_) => false,
            _ => true,
        },
        _ => false,
    }
}

/// A reason with the advice that goes with it.
pub open spec fn with_advice(reason: Seq<char>, hint: Option<Seq<char>>) -> Seq<char> {
    match hint {
        Some(hint) => reason + "｜"@ + hint,
        None => reason,
    }
}

/// What a failed session tells the user, given what the system's conversion from code page 936
/// makes of the server's own explanation.
pub open spec fn failure_text(error: ErrorView, converted: Seq<u16>) -> Seq<char> {
    with_advice(
        session::error_text(error, session::explained(error, converted)),
        session::guidance_of(error),
    )
}

/// The failure, and what to do about it where that is known. `converted` are the code units that
/// the system's conversion from code page 936 makes of the `message_bytes` of a rejection.
pub fn describe_failure(error: &SessionError, converted: &[u16]) -> (shown: String)
    ensures
        shown@ == failure_text(error@, converted@),
{
    let mut shown = error.to_text(converted);
    if let Some(hint) = error.guidance() {
        shown.append("｜");
        shown.append(hint);
    }
    shown
}

/// How long the next part of a wait is, in milliseconds, where a wait is looked up at least every
/// `longest_ms`.
pub fn sleep_step(remaining_ms: u64, longest_ms: u64) -> (step: u64)
    ensures
        step == (if remaining_ms <= longest_ms {
            remaining_ms
        } else {
            longest_ms
        }),
{
    if remaining_ms <= longest_ms {
        remaining_ms
    } else {
        longest_ms
    }
}

proof fn lemma_delay_range(n: nat)
    ensures
        FIRST_DELAY <= delay_before(n) <= CEILING,
    decreases n,
{
    if n > 0 {
        lemma_delay_range((n - 1) as nat);
    }
}

/// In an outage no delay is shorter than the one before it, and from the sixth attempt on every
/// delay is the ceiling.
pub proof fn law_delays_grow_to_the_ceiling(n: nat)
    ensures
        delay_before(n) <= delay_before(n + 1),
        n >= 5 ==> delay_before(n) == CEILING,
    decreases n,
{
    lemma_delay_range(n);
    if n == 5 {
        reveal_with_fuel(delay_before, 6);
    } else if n > 5 {
        law_delays_grow_to_the_ceiling((n - 1) as nat);
    }
}

/// Nothing that a user or an administrator has to change is tried again: a refused login, refused
/// settings, a challenge that was not understood, a stop.
pub proof fn law_only_the_network_is_retried(error: ErrorView)
    requires
        recoverable(error),
    ensures
        error is NoResponse || error is Transport,
{
}

/// What is tried again, one by one: a missing response and every failure of the network that can go
/// away by itself. A port in use, a missing right, and whatever is not known are not, nor is
/// anything but a failure of the network.
pub proof fn law_what_is_tried_again(error: ErrorView)
    ensures
        error is NoResponse ==> recoverable(error),
        error matches ErrorView::Transport(kind) ==> {
            &&& recoverable(error) <==> !(kind is AddrInUse || kind is PermissionDenied
                || kind is Unlisted)
            &&& kind is TimedOut || kind is WouldBlock || kind is Interrupted
                || kind is ConnectionReset || kind is ConnectionAborted || kind is ConnectionRefused
                || kind is NotConnected || kind is AddrNotAvailable || kind is NetworkDown
                || kind is NetworkUnreachable || kind is HostUnreachable ==> recoverable(error)
        },
        !(error is NoResponse) && !(error is Transport) ==> !recoverable(error),
{
}

/// The delays of an outage are 5, 10, 20, 40 and 80 seconds, and then 120 for as long as it lasts.
pub proof fn law_the_delays_of_an_outage(n: nat)
    ensures
        delay_before(0) == 5,
        delay_before(1) == 10,
        delay_before(2) == 20,
        delay_before(3) == 40,
        delay_before(4) == 80,
        n >= 5 ==> delay_before(n) == 120,
        5 <= delay_before(n) <= 120,
        delay_before(n + 1) == delay_before(n) * 2 || delay_before(n + 1) == 120,
{
    reveal_with_fuel(delay_before, 6);
    lemma_delay_range(n);
    law_delays_grow_to_the_ceiling(n);
}

/// What a failure tells is the reason, and behind it the advice where there is one.
pub proof fn law_the_advice_follows_the_reason(error: ErrorView, converted: Seq<u16>)
    ensures
        ({
            let told = failure_text(error, converted);
            let reason = session::error_text(error, session::explained(error, converted));
            &&& told.len() >= reason.len()
            &&& told.take(reason.len() as int) == reason
            &&& session::guidance_of(error) is None ==> told == reason
            &&& session::guidance_of(error) matches Some(hint) ==> told.len() == reason.len() + 1
                + hint.len() && told[reason.len() as int] == '｜' && told.skip(
                reason.len() as int + 1,
            ) == hint
        }),
{
    let told = failure_text(error, converted);
    let reason = session::error_text(error, session::explained(error, converted));
    reveal_strlit("｜");
    assert(told.take(reason.len() as int) =~= reason);
    if session::guidance_of(error) is Some {
        let hint = session::guidance_of(error)->0;
        assert(told.skip(reason.len() as int + 1) =~= hint);
    }
}

} // verus!
