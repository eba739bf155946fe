//! What a UDP socket can report, as far as the protocol logic looks at it.

use vstd::prelude::*;

verus! {

/// The port that authentication uses on both sides.
pub const DEFAULT_LOCAL_PORT: u16 = 61440;

/// Why a socket operation failed.
#[derive(Debug, Clone, PartialEq, Eq)]
pub enum TransportErrorKind {
    AddrInUse,
    AddrNotAvailable,
    ConnectionAborted,
    ConnectionRefused,
    ConnectionReset,
    HostUnreachable,
    Interrupted,
    NetworkDown,
    NetworkUnreachable,
    NotConnected,
    PermissionDenied,
    TimedOut,
    WouldBlock,
    /// Any other failure, by its name.
    Unlisted(String),
}

/// The name of a failure.
pub open spec fn kind_name(kind: TransportErrorKind) -> Seq<char> {
    match kind {
        TransportErrorKind::AddrInUse => "AddrInUse"@,
        TransportErrorKind::AddrNotAvailable => "AddrNotAvailable"@,
        TransportErrorKind::ConnectionAborted => "ConnectionAborted"@,
        TransportErrorKind::ConnectionRefused => "ConnectionRefused"@,
        TransportErrorKind::ConnectionReset => "ConnectionReset"@,
        TransportErrorKind::HostUnreachable => "HostUnreachable"@,
        TransportErrorKind::Interrupted => "Interrupted"@,
        TransportErrorKind::NetworkDown => "NetworkDown"@,
        TransportErrorKind::NetworkUnreachable => "NetworkUnreachable"@,
        TransportErrorKind::NotConnected => "NotConnected"@,
        TransportErrorKind::PermissionDenied => "PermissionDenied"@,
        TransportErrorKind::TimedOut => "TimedOut"@,
        TransportErrorKind::WouldBlock => "WouldBlock"@,
        TransportErrorKind::Unlisted(name) => name@,
    }
}

impl TransportErrorKind {
    pub fn name(&self) -> (name: String)
        ensures
            name@ == kind_name(*self),
    {
        match self {
            TransportErrorKind::AddrInUse => "AddrInUse".to_string(),
            TransportErrorKind::AddrNotAvailable => "AddrNotAvailable".to_string(),
            TransportErrorKind::ConnectionAborted => "ConnectionAborted".to_string(),
            TransportErrorKind::ConnectionRefused => "ConnectionRefused".to_string(),
            TransportErrorKind::ConnectionReset => "ConnectionReset".to_string(),
            TransportErrorKind::HostUnreachable => "HostUnreachable".to_string(),
            TransportErrorKind::Interrupted => "Interrupted".to_string(),
            TransportErrorKind::NetworkDown => "NetworkDown".to_string(),
            TransportErrorKind::NetworkUnreachable => "NetworkUnreachable".to_string(),
            TransportErrorKind::NotConnected => "NotConnected".to_string(),
            TransportErrorKind::PermissionDenied => "PermissionDenied".to_string(),
            TransportErrorKind::TimedOut => "TimedOut".to_string(),
            TransportErrorKind::WouldBlock => "WouldBlock".to_string(),
            TransportErrorKind::Unlisted(name) => name.clone(),
        }
    }
}

/// What a failed receive means for a wait.
#[derive(Debug, Clone, Copy, PartialEq, Eq, Structural)]
pub enum ReceiveVerdict {
    /// Nothing arrived in time.
    NoResponse,
    /// The failure belongs to an earlier datagram: wait on until the deadline.
    KeepWaiting,
    Failed,
}

/// What a failed receive means. A socket that latches the ICMP answer to an earlier datagram
/// says nothing about the reply that is waited for.
pub open spec fn verdict_of(kind: TransportErrorKind, latched_icmp: bool) -> ReceiveVerdict {
    if kind is WouldBlock || kind is TimedOut {
        ReceiveVerdict::NoResponse
    } else if latched_icmp {
        ReceiveVerdict::KeepWaiting
    } else {
        ReceiveVerdict::Failed
    }
}

/// What a failed receive means for a wait.
pub fn receive_verdict(kind: &TransportErrorKind, latched_icmp: bool) -> (verdict: ReceiveVerdict)
    ensures
        verdict == verdict_of(*kind, latched_icmp),
{
    if matches!(kind, TransportErrorKind::WouldBlock | TransportErrorKind::TimedOut) {
        ReceiveVerdict::NoResponse
    } else if latched_icmp {
        ReceiveVerdict::KeepWaiting
    } else {
        ReceiveVerdict::Failed
    }
}

/// A wait that ran out is no response, whatever the socket latched; any other failure is waited out
/// where it belongs to an earlier datagram, and ends the wait where it does not.
pub proof fn law_what_a_failed_receive_means(kind: TransportErrorKind, latched_icmp: bool)
    ensures
        ({
            let verdict = verdict_of(kind, latched_icmp);
            let ran_out = kind is WouldBlock || kind is TimedOut;
            &&& verdict is NoResponse <==> ran_out
            &&& verdict is KeepWaiting <==> !ran_out && latched_icmp
            &&& verdict is Failed <==> !ran_out && !latched_icmp
        }),
{
}

/// A failure is named as the system names it.
pub proof fn law_the_names_of_failures(name: String)
    ensures
        kind_name(TransportErrorKind::AddrInUse) == "AddrInUse"@,
        kind_name(TransportErrorKind::AddrNotAvailable) == "AddrNotAvailable"@,
        kind_name(TransportErrorKind::ConnectionAborted) == "ConnectionAborted"@,
        kind_name(TransportErrorKind::ConnectionRefused) == "ConnectionRefused"@,
        kind_name(TransportErrorKind::ConnectionReset) == "ConnectionReset"@,
        kind_name(TransportErrorKind::HostUnreachable) == "HostUnreachable"@,
        kind_name(TransportErrorKind::Interrupted) == "Interrupted"@,
        kind_name(TransportErrorKind::NetworkDown) == "NetworkDown"@,
        kind_name(TransportErrorKind::NetworkUnreachable) == "NetworkUnreachable"@,
        kind_name(TransportErrorKind::NotConnected) == "NotConnected"@,
        kind_name(TransportErrorKind::PermissionDenied) == "PermissionDenied"@,
        kind_name(TransportErrorKind::TimedOut) == "TimedOut"@,
        kind_name(TransportErrorKind::WouldBlock) == "WouldBlock"@,
        kind_name(TransportErrorKind::Unlisted(name)) == name@,
{
}

} // verus!
