//! The challenge exchange: one request, the datagrams that may answer it, and the retries.
//!
//! No credentials are sent here. The caller moves the datagrams; this module says what to send,
//! which datagram counts, and what follows from silence.

use vstd::prelude::*;

use crate::net::{Ipv4Addr, SocketAddrV4};
use crate::protocol::{self, ChallengeResponse};
use crate::reference_login::{self, BuildError, ReferenceLoginConfig};
use crate::retry::{LoginRetry, LoginTimeout};
use crate::transport::TransportErrorKind;

verus! {

/// How long a logout waits between its ping and its challenge.
pub const LOGOUT_PAUSE_MS: u64 = 500;

#[derive(Debug, Clone, PartialEq, Eq)]
pub enum ChallengeExchangeError {
    Io(TransportErrorKind),
    TimedOut,
    Rejected,
}

#[derive(Debug, Clone, PartialEq, Eq)]
pub struct ChallengeReceipt {
    /// Who answered.
    pub source: SocketAddrV4,
    pub challenge: [u8; 4],
    pub system_auth_option: u16,
    pub datagram: Vec<u8>,
}

#[derive(Debug, Clone, PartialEq, Eq)]
pub enum ChallengeConnectError {
    Exchange(ChallengeExchangeError),
    AllServersTimedOut,
}

/// Builds the login frame that follows a challenge, without sending it.
pub fn build_reference_login(
    receipt: &ChallengeReceipt,
    username: &[u8],
    password: &[u8],
    config: &ReferenceLoginConfig,
) -> (result: Result<Vec<u8>, BuildError>)
    ensures
        username@.len() > reference_login::ACCOUNT_FIELD_LEN ==> result == Err::<
            Vec<u8>,
            BuildError,
        >(BuildError::UsernameTooLong),
        username@.len() <= reference_login::ACCOUNT_FIELD_LEN && password@.len()
            > reference_login::MAX_PASSWORD_LEN ==> result == Err::<Vec<u8>, BuildError>(
            BuildError::PasswordTooLong,
        ),
        username@.len() <= reference_login::ACCOUNT_FIELD_LEN && password@.len()
            <= reference_login::MAX_PASSWORD_LEN ==> (result matches Ok(frame) && frame@
            == reference_login::login_frame(receipt.challenge@, username@, password@, config@)),
{
    reference_login::build_login_packet(&receipt.challenge, username, password, config)
}

/// The nonce of a challenge: the low sixteen bits of Unix seconds.
pub fn current_challenge_nonce(unix_seconds: u64) -> (nonce: u16)
    ensures
        nonce == unix_seconds % 0x1_0000,
{
    (unix_seconds % 0x1_0000) as u16
}

/// One challenge request and what may answer it.
#[derive(Debug, Clone, Copy, PartialEq, Eq)]
pub struct ChallengeExchange {
    pub destination: SocketAddrV4,
    pub sequence: u8,
    pub nonce: u16,
    pub client_option: u8,
    /// The only address that may answer, where there is one.
    pub accepted_source: Option<Ipv4Addr>,
}

/// What a datagram means to a waiting exchange.
#[derive(Debug, Clone, PartialEq, Eq)]
pub enum ExchangeStep {
    /// Stale or foreign: wait on.
    Ignore,
    /// The server refuses the challenge.
    Rejected,
    Accepted(ChallengeReceipt),
}

/// Whether a datagram may answer the exchange, going by where it comes from.
pub open spec fn from_accepted_source(exchange: ChallengeExchange, source: SocketAddrV4) -> bool {
    exchange.accepted_source matches Some(expected) ==> source.ip == expected
}

/// Whether a datagram is the refusal of a challenge.
pub open spec fn is_refusal(datagram: Seq<u8>) -> bool {
    datagram.len() > 0 && datagram[0] == 0x05
}

/// Whether a datagram answers the exchange with a challenge.
pub open spec fn is_answer(exchange: ChallengeExchange, datagram: Seq<u8>) -> bool {
    protocol::challenge_refusal(datagram, exchange.sequence, exchange.nonce) is None
}

/// Whether a receipt is what a datagram gives.
pub open spec fn receipt_of(
    receipt: ChallengeReceipt,
    source: SocketAddrV4,
    datagram: Seq<u8>,
) -> bool {
    &&& receipt.source == source
    &&& receipt.challenge@ == datagram.subrange(4, 8)
    &&& receipt.system_auth_option == crate::bytes::word16(datagram[0x2a], datagram[0x2b])
    &&& receipt.datagram@ == datagram
}

/// The exchange of an initial login: whoever answers is accepted.
pub fn exchange_challenge(
    destination: SocketAddrV4,
    sequence: u8,
    nonce: u16,
    client_option: u8,
) -> (exchange: ChallengeExchange)
    ensures
        exchange == (ChallengeExchange {
            destination,
            sequence,
            nonce,
            client_option,
            accepted_source: None,
        }),
{
    ChallengeExchange { destination, sequence, nonce, client_option, accepted_source: None }
}

/// The exchange of a logout, which a ping and a pause come before: only the server that the
/// session is online with may answer.
pub fn exchange_logout_challenge(
    online_server: SocketAddrV4,
    sequence: u8,
    nonce: u16,
    client_option: u8,
) -> (exchange: ChallengeExchange)
    ensures
        exchange == (ChallengeExchange {
            destination: online_server,
            sequence,
            nonce,
            client_option,
            accepted_source: Some(online_server.ip),
        }),
{
    ChallengeExchange {
        destination: online_server,
        sequence,
        nonce,
        client_option,
        accepted_source: Some(online_server.ip),
    }
}

impl ChallengeExchange {
    /// The datagram that opens the exchange.
    pub fn request(&self) -> (packet: [u8; 20])
        ensures
            packet@ == protocol::challenge_request_frame(
                self.sequence,
                self.nonce,
                self.client_option,
            ),
    {
        protocol::challenge_request(self.sequence, self.nonce, self.client_option)
    }

    /// What a datagram means. Unexpected and stale datagrams never become state.
    pub fn receive(&self, source: SocketAddrV4, datagram: &[u8]) -> (step: ExchangeStep)
        ensures
            step is Ignore <==> !from_accepted_source(*self, source) || (!is_refusal(datagram@)
                && !is_answer(*self, datagram@)),
            step is Rejected <==> from_accepted_source(*self, source) && is_refusal(datagram@),
            step matches ExchangeStep::Accepted(receipt) ==> from_accepted_source(*self, source)
                && !is_refusal(datagram@) && is_answer(*self, datagram@) && receipt_of(
                receipt,
                source,
                datagram@,
            ),
    {
        if let Some(expected) = self.accepted_source {
            if source.ip != expected {
                return ExchangeStep::Ignore;
            }
        }
        if datagram.len() > 0 && datagram[0] == 0x05 {
            return ExchangeStep::Rejected;
        }
        match ChallengeResponse::parse(datagram, self.sequence, self.nonce) {
            Ok(parsed) => ExchangeStep::Accepted(
                ChallengeReceipt {
                    source,
                    challenge: parsed.challenge,
                    system_auth_option: parsed.system_auth_option,
                    datagram: vstd::slice::slice_to_vec(datagram),
                },
            ),
            Err(_) => ExchangeStep::Ignore,
        }
    }
}

/// The next attempt of a challenge that is retried, with the clock's low sixteen bits as nonce.
pub fn connect_challenge(
    retry: &LoginRetry,
    sequence: &mut u8,
    server_port: u16,
    client_option: u8,
    unix_seconds: u64,
) -> (exchange: ChallengeExchange)
    ensures
        retry@.valid(),
        *final(sequence) == old(sequence).wrapping_add(1),
        exchange == attempt_of(
            retry@.current(),
            server_port,
            old(sequence).wrapping_add(1),
            client_option,
            (unix_seconds % 0x1_0000) as u16,
        ),
{
    connect_challenge_with(
        retry,
        sequence,
        server_port,
        client_option,
        current_challenge_nonce(unix_seconds),
    )
}

/// An initial challenge to one server.
pub open spec fn attempt_of(
    server: Ipv4Addr,
    server_port: u16,
    sequence: u8,
    client_option: u8,
    nonce: u16,
) -> ChallengeExchange {
    ChallengeExchange {
        destination: SocketAddrV4 { ip: server, port: server_port },
        sequence,
        nonce,
        client_option,
        accepted_source: None,
    }
}

/// The next attempt of a challenge that is retried: the sequence moves on by one, and the
/// request goes to the server that the login budget names.
pub fn connect_challenge_with(
    retry: &LoginRetry,
    sequence: &mut u8,
    server_port: u16,
    client_option: u8,
    nonce: u16,
) -> (exchange: ChallengeExchange)
    ensures
        retry@.valid(),
        *final(sequence) == old(sequence).wrapping_add(1),
        exchange == attempt_of(
            retry@.current(),
            server_port,
            old(sequence).wrapping_add(1),
            client_option,
            nonce,
        ),
{
    *sequence = sequence.wrapping_add(1);
    exchange_challenge(
        SocketAddrV4 { ip: retry.current_server(), port: server_port },
        *sequence,
        nonce,
        client_option,
    )
}

/// What a failed attempt leads to: nothing, which means another attempt, or the end. Only
/// silence is retried, and it takes one from the budget that the login send shares.
pub fn run_challenge_retries(retry: &mut LoginRetry, error: ChallengeExchangeError) -> (outcome:
    Option<ChallengeConnectError>)
    ensures
        match error {
            ChallengeExchangeError::TimedOut => {
                &&& old(retry)@.valid()
                &&& final(retry)@ == old(retry)@.after_timeout()
                &&& outcome == (if old(retry)@.timeout_outcome() is AllServersExhausted {
                    Some(ChallengeConnectError::AllServersTimedOut)
                } else {
                    None
                })
            },
            other => final(retry)@ == old(retry)@ && outcome == Some(
                ChallengeConnectError::Exchange(other),
            ),
        },
{
    match error {
        ChallengeExchangeError::TimedOut => match retry.on_login_timeout() {
            LoginTimeout::RetrySameServer(_) | LoginTimeout::SwitchServer(_) => None,
            LoginTimeout::AllServersExhausted => Some(ChallengeConnectError::AllServersTimedOut),
        },
        other => Some(ChallengeConnectError::Exchange(other)),
    }
}

/// An answer to one request never answers the request that follows it.
pub proof fn law_a_stale_answer_is_ignored(exchange: ChallengeExchange, datagram: Seq<u8>)
    requires
        is_answer(exchange, datagram),
    ensures
        !is_answer(
            (ChallengeExchange { sequence: exchange.sequence.wrapping_add(1), ..exchange }),
            datagram,
        ),
{
    protocol::law_a_response_answers_one_request(
        datagram,
        exchange.sequence,
        exchange.nonce,
        exchange.sequence.wrapping_add(1),
        exchange.nonce,
    );
}

/// What a waiting exchange takes for what, from the datagram alone: `05` refuses it, and at least 44
/// bytes that begin with `02`, its number and its nonce, low byte first, answer it. Where only one
/// address may answer, no other does.
pub proof fn law_what_answers_an_exchange(
    exchange: ChallengeExchange,
    source: SocketAddrV4,
    datagram: Seq<u8>,
)
    ensures
        is_refusal(datagram) <==> datagram.len() >= 1 && datagram[0] == 5,
        is_answer(exchange, datagram) <==> datagram.len() >= 44 && datagram[0] == 2 && datagram[1]
            == exchange.sequence && datagram[2] as int + 256 * (datagram[3] as int)
            == exchange.nonce,
        from_accepted_source(exchange, source) <==> (exchange.accepted_source is None
            || exchange.accepted_source->0 == source.ip),
{
}

/// What a receipt takes over: who answered, the four bytes at offset 4 as the challenge, the word at
/// offset 42, low byte first, as the option, and the datagram whole.
pub proof fn law_what_a_receipt_takes_over(
    receipt: ChallengeReceipt,
    source: SocketAddrV4,
    datagram: Seq<u8>,
)
    requires
        datagram.len() >= 44,
    ensures
        receipt_of(receipt, source, datagram) <==> {
            &&& receipt.source == source
            &&& receipt.challenge@ == seq![datagram[4], datagram[5], datagram[6], datagram[7]]
            &&& receipt.system_auth_option == datagram[42] as int + 256 * (datagram[43] as int)
            &&& receipt.datagram@ == datagram
        },
{
    assert(datagram.subrange(4, 8) =~= seq![datagram[4], datagram[5], datagram[6], datagram[7]]);
}

/// A challenge goes to one server under one number and nonce, and any address may answer it.
pub proof fn law_what_an_attempt_is(
    server: Ipv4Addr,
    port: u16,
    sequence: u8,
    option: u8,
    nonce: u16,
)
    ensures
        ({
            let exchange = attempt_of(server, port, sequence, option, nonce);
            &&& exchange.destination.ip == server
            &&& exchange.destination.port == port
            &&& exchange.sequence == sequence
            &&& exchange.nonce == nonce
            &&& exchange.client_option == option
            &&& exchange.accepted_source is None
        }),
{
}

} // verus!
