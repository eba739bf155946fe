//! What each step of a session does, seen from outside: what goes out, to whom, and what is said.

use vstd::prelude::*;

use crate::auth;
use crate::bytes;
use crate::keepalive::{self, KeepAlivePacketType};
use crate::login_response;
use crate::net::{self, SocketAddrV4};
use crate::protocol;
use crate::reference_login::{self, BuildError};
use crate::retry::{LoginTimeout, RetryConfigError};
use crate::route::{InstalledRoute, OutcomeView, RouteError, RouteMode, RouteReport};
use crate::session::{
    self, ActionView, Awaiting, ErrorView, EventView, GuardRequest, GuardView, Moment, RoundView,
    SessionConfig, SessionInput, SessionModel, SessionPhase, StageView,
};
use crate::text;
use crate::transport::TransportErrorKind;

verus! {

/// A session that has not begun has no server, no challenge and no cookie, and its last sequence is
/// the one before the first challenge.
pub proof fn law_a_session_begins_with_nothing(config: SessionConfig)
    ensures
        ({
            let m = session::fresh_session(config);
            &&& m.config == config
            &&& m.sequence == 1
            &&& m.salt.len() == 4 && m.cookie.len() == 16
            &&& forall|i: int| 0 <= i < 4 ==> #[trigger] m.salt[i] == 0
            &&& forall|i: int| 0 <= i < 16 ==> #[trigger] m.cookie[i] == 0
            &&& m.version == config.keepalive_version@
            &&& m.server is None && m.connected_since is None
            &&& m.stage is Idle && m.awaiting is Nothing && !m.running
            &&& m.retry.servers == config.servers@ && m.retry.index == 0 && m.retry.sends == 1
        }),
{
}

/// The login frame states what the settings say, each in its own field.
pub proof fn law_the_profile_is_that_of_the_settings(config: SessionConfig)
    ensures
        ({
            let profile = session::profile_of(config);
            &&& profile.host_ipv4 == seq![
                config.local_ipv4.a,
                config.local_ipv4.b,
                config.local_ipv4.c,
                config.local_ipv4.d,
            ]
            &&& profile.mac == config.mac
            &&& profile.hostname == config.hostname@
            &&& profile.primary_dns == config.primary_dns@
            &&& profile.dhcp_server == config.dhcp_server@
            &&& profile.auth_version == config.auth_version@
            &&& profile.control_status == config.control_status
            &&& profile.adapter_num == config.adapter_num
            &&& profile.ip_dog == config.ip_dog
        }),
{
}

/// A login attempt asks the server whose turn it is for a challenge, under the next sequence and
/// with the clock modulo 65535.
pub proof fn law_a_login_asks_the_current_server(
    m: SessionModel,
    events: Seq<EventView>,
    now: Moment,
)
    requires
        !now.stopped,
        m.retry.valid(),
    ensures
        ({
            let t = session::login_begun(m, events, now);
            let sequence = (if m.sequence == 255 {
                0
            } else {
                m.sequence + 1
            }) as u8;
            let nonce = (now.unix_seconds % 65535) as u16;
            &&& t.action == ActionView::Send {
                to: SocketAddrV4 {
                    ip: m.retry.servers[m.retry.index as int],
                    port: m.config.server_port,
                },
                datagram: protocol::challenge_request_frame(sequence, nonce, 9),
            }
            &&& t.model == SessionModel {
                sequence,
                stage: StageView::LoginChallenge { nonce },
                awaiting: Awaiting::Send,
                ..m
            }
            &&& t.events == events.push(EventView::Phase(SessionPhase::Challenge))
        }),
{
    reveal(session::login_begun);
    reveal(session::challenge_sent);
}

/// A challenge that nobody answers takes one send from the budget and is asked for again at once,
/// under the next sequence, from the server whose turn it then is. When the budget is spent, the
/// login ends.
pub proof fn law_a_silent_challenge_is_asked_for_again(m: SessionModel, now: Moment)
    requires
        m.stage is LoginChallenge,
        m.retry.valid(),
    ensures
        ({
            let t = session::next(m, SessionInput::TimedOut, now);
            let spent = m.retry.after_timeout();
            let sequence = (if m.sequence == 255 {
                0
            } else {
                m.sequence + 1
            }) as u8;
            let nonce = (now.unix_seconds % 65535) as u16;
            &&& t.model.retry == spent
            &&& t.events.len() == 0
            &&& m.retry.timeout_outcome() is AllServersExhausted ==> t.action
                == ActionView::Finished(Err(ErrorView::NoResponse("挑战"@)))
            &&& !(m.retry.timeout_outcome() is AllServersExhausted) ==> {
                &&& t.action == ActionView::Send {
                    to: SocketAddrV4 {
                        ip: spent.servers[spent.index as int],
                        port: m.config.server_port,
                    },
                    datagram: protocol::challenge_request_frame(sequence, nonce, 9),
                }
                &&& t.model.stage == StageView::LoginChallenge { nonce }
                &&& t.model.sequence == sequence
            }
        }),
{
    reveal(session::challenge_unanswered);
    reveal(session::challenge_sent);
    reveal(session::login_ended);
}

/// An answered challenge is the four bytes at offset 4. Its sender is the server from then on and
/// gets the login frame, unless the account or the password is too long for it. A refused
/// challenge ends the login and leaves the session as it was.
pub proof fn law_what_a_challenge_leads_to(
    m: SessionModel,
    source: SocketAddrV4,
    datagram: Vec<u8>,
    now: Moment,
)
    requires
        m.stage is LoginChallenge,
        session::concerns(m, source, datagram@),
        datagram@.len() >= 8,
    ensures
        ({
            let t = session::next(m, SessionInput::Received { source, datagram }, now);
            let salt = seq![datagram@[4], datagram@[5], datagram@[6], datagram@[7]];
            let account = m.config.username@;
            let password = m.config.password@;
            let frame = reference_login::login_frame(
                salt,
                account,
                password,
                session::profile_of(m.config),
            );
            let taken = EventView::Note(
                "挑战已接受：salt="@ + text::hex(salt) + " 序号="@ + text::decimal(
                    m.sequence as nat,
                ) + " 来自 "@ + net::endpoint_text(source),
            );
            let sent = EventView::Note(
                "登录报文 "@ + text::decimal(frame.len()) + " 字节，发往 "@ + net::endpoint_text(
                    source,
                ),
            );
            &&& auth::is_refusal(datagram@) ==> {
                &&& t.action == ActionView::Finished(
                    Err(ErrorView::Challenge("服务器拒绝了挑战请求"@)),
                )
                &&& t.model.server == m.server && t.model.salt == m.salt
                &&& t.events.len() == 0
            }
            &&& !auth::is_refusal(datagram@) ==> {
                &&& t.model.server == Some(source) && t.model.salt == salt
                &&& t.events.len() >= 2
                &&& t.events[0] == taken
                &&& t.events[1] == EventView::Phase(SessionPhase::Authenticating)
                &&& account.len() > 36 ==> t.action == ActionView::Finished(
                    Err(ErrorView::Credentials(BuildError::UsernameTooLong)),
                ) && t.events.len() == 2
                &&& account.len() <= 36 && password.len() > 16 ==> t.action
                    == ActionView::Finished(
                    Err(ErrorView::Credentials(BuildError::PasswordTooLong)),
                ) && t.events.len() == 2
                &&& account.len() <= 36 && password.len() <= 16 ==> t.action == ActionView::Send {
                    to: source,
                    datagram: frame,
                } && t.events.len() == 3 && t.events[2] == sent && t.model.stage is Login
            }
        }),
{
    reveal(session::challenge_accepted);
    reveal(session::login_ended);
    assert(datagram@.subrange(4, 8) =~= seq![
        datagram@[4],
        datagram@[5],
        datagram@[6],
        datagram@[7],
    ]);
}

/// A login that succeeds has a cookie, the sixteen bytes at offset 23, and counts from that moment.
/// Alone it is over then; in a run the keep-alive begins at once.
pub proof fn law_what_a_success_leads_to(
    m: SessionModel,
    source: SocketAddrV4,
    datagram: Vec<u8>,
    now: Moment,
)
    requires
        m.stage is Login,
        m.server == Some(source),
        datagram@.len() >= 39,
        datagram@[0] == 4,
        !now.stopped,
        m.config.keepalive_retries > 0,
    ensures
        ({
            let t = session::next(m, SessionInput::Received { source, datagram }, now);
            let cookie = Seq::new(16, |i: int| datagram@[23 + i]);
            &&& t.model.cookie == cookie
            &&& t.model.connected_since == Some(now.uptime_ms)
            &&& t.model.salt == m.salt && t.model.server == m.server && t.model.retry == m.retry
            &&& t.events.len() >= 2
            &&& t.events[0] == EventView::Note("认证成功，会话尾码 "@ + text::hex(cookie))
            &&& t.events[1] == EventView::Phase(SessionPhase::Online)
            &&& !m.running ==> t.action == ActionView::Finished(Ok(())) && t.events.len() == 2
            &&& m.running ==> t.events.len() == 3 && t.events[2] == EventView::Phase(
                SessionPhase::KeepAlive,
            ) && t.action == ActionView::Send {
                to: source,
                datagram: keepalive::primary_bytes(
                    reference_login::first_digest_of(m.salt, m.config.password@),
                    cookie,
                    now.unix_seconds,
                ),
            } && t.model.stage is Primary && t.model.stage->Primary_left
                == m.config.keepalive_retries - 1
        }),
{
    reveal(session::login_replied);
    reveal(session::login_ended);
    reveal(session::rounds_begun);
    reveal(session::round_begun);
    reveal(session::primary_tried);
    reveal(session::keepalive_sent);
    assert(datagram@.subrange(23, 39) =~= Seq::new(16, |i: int| datagram@[23 + i]));
}

/// A login that the server rejects is over, with the code at offset 4; everything else that is no
/// success takes one send from the budget.
pub proof fn law_what_other_login_replies_lead_to(
    m: SessionModel,
    source: SocketAddrV4,
    datagram: Vec<u8>,
    now: Moment,
)
    requires
        m.stage is Login,
        m.server == Some(source),
    ensures
        ({
            let t = session::next(m, SessionInput::Received { source, datagram }, now);
            let data = datagram@;
            let rejected = data.len() >= 5 && data[0] == 5;
            let success = data.len() >= 39 && data[0] == 4;
            let unknown = data.len() > 0 && data[0] != 4 && data[0] != 5;
            &&& rejected ==> {
                &&& t.action == ActionView::Finished(
                    Err(ErrorView::Rejected(login_response::failure_of(data))),
                )
                &&& t.events == seq![
                    EventView::Note("认证被拒绝，错误码 "@ + text::decimal(data[4] as nat)),
                ]
                &&& t.model.retry == m.retry
            }
            &&& !rejected && !success ==> {
                &&& t.model.retry == m.retry.after_timeout()
                &&& t.events.len() >= 1
                &&& t.events[0] == EventView::Note(
                    if unknown {
                        "未识别的响应类型 0x"@ + text::hex_byte(data[0]) + "，重新认证"@
                    } else {
                        "响应过短，重新认证"@
                    },
                )
                &&& t.model.cookie == m.cookie && t.model.connected_since == m.connected_since
            }
        }),
{
    reveal(session::login_replied);
    reveal(session::login_ended);
    reveal(session::login_retried);
    let t = session::next(m, SessionInput::Received { source, datagram }, now);
    if datagram@.len() >= 5 && datagram@[0] == 5 {
        assert(t.events =~= seq![
            EventView::Note("认证被拒绝，错误码 "@ + text::decimal(datagram@[4] as nat)),
        ]);
    }
}

/// A login attempt that comes to nothing is repeated after three seconds, with the server named
/// whose turn it then is. When the budget is spent, the login ends.
pub proof fn law_what_a_silent_login_leads_to(m: SessionModel, now: Moment)
    requires
        m.stage is Login,
    ensures
        ({
            let t = session::next(m, SessionInput::TimedOut, now);
            &&& t.model.retry == m.retry.after_timeout()
            &&& t.events.len() >= 1
            &&& t.events[0] == EventView::Note("登录 响应超时"@)
            &&& match m.retry.timeout_outcome() {
                LoginTimeout::AllServersExhausted => t.action == ActionView::Finished(
                    Err(ErrorView::NoResponse("登录"@)),
                ) && t.events.len() == 1,
                LoginTimeout::RetrySameServer(server) => t.action == (ActionView::Sleep {
                    ms: 3000,
                    interruptible: true,
                }) && t.model.stage is LoginPause && t.events.len() == 2 && t.events[1]
                    == EventView::Note("重试登录，仍发往 "@ + net::ipv4_text(server)),
                LoginTimeout::SwitchServer(server) => t.action == (ActionView::Sleep {
                    ms: 3000,
                    interruptible: true,
                }) && t.model.stage is LoginPause && t.events.len() == 2 && t.events[1]
                    == EventView::Note("登录改用认证服务器 "@ + net::ipv4_text(server)),
            }
        }),
{
    reveal(session::login_retried);
    reveal(session::login_ended);
}

/// The pause before the next attempt ends with that attempt, and with nothing more where the
/// session was stopped meanwhile.
pub proof fn law_what_follows_the_pause_of_a_login(m: SessionModel, completed: bool, now: Moment)
    requires
        m.stage is LoginPause,
    ensures
        ({
            let t = session::next(m, SessionInput::Slept { completed }, now);
            &&& completed ==> t == session::login_begun(m, Seq::empty(), now)
            &&& !completed || now.stopped ==> t.action == ActionView::Finished(
                Err(ErrorView::Stopped),
            ) && t.events.len() == 0
        }),
{
    reveal(session::login_begun);
    reveal(session::login_ended);
}

/// After a datagram the session waits for its reply, but for the ping of a logout, behind which it
/// pauses half a second.
pub proof fn law_what_follows_a_send(m: SessionModel, now: Moment)
    ensures
        ({
            let t = session::next(m, SessionInput::Sent, now);
            &&& t.events.len() == 0
            &&& !(m.stage is LogoutPing) ==> t.action is Receive && t.model == SessionModel {
                awaiting: Awaiting::Reply,
                ..m
            }
            &&& m.stage is LogoutPing ==> t.action == (ActionView::Sleep {
                ms: 500,
                interruptible: false,
            }) && t.model.stage == (StageView::LogoutPause { nonce: m.stage->LogoutPing_nonce })
        }),
{
}

/// A datagram that cannot be sent ends what the session is doing, with that failure. A run that is
/// logging out ends well nonetheless and says so.
pub proof fn law_what_a_failed_send_leads_to(
    m: SessionModel,
    kind: TransportErrorKind,
    now: Moment,
)
    requires
        m.awaiting is Send,
        !(m.stage is Idle),
    ensures
        ({
            let t = session::next(m, SessionInput::SendFailed(kind), now);
            let leaving = m.stage is LogoutPing || m.stage is LogoutPause || m.stage
                is LogoutChallenge || m.stage is Logout;
            &&& !(leaving && m.running) ==> t.action == ActionView::Finished(
                Err(ErrorView::Transport(kind)),
            ) && t.events.len() == 0
            &&& leaving && m.running ==> t.action == ActionView::Finished(Ok(()))
                && t.events.len() == 1 && t.events[0] == EventView::Note(
                "下线失败："@ + session::error_text(ErrorView::Transport(kind), None),
            )
        }),
{
    reveal(session::login_ended);
    reveal(session::keepalive_ended);
    reveal(session::logout_ended);
}

/// A wait that the socket fails ends what the session is doing as well, but for a keep-alive packet
/// that may be sent once more.
pub proof fn law_what_a_failed_wait_leads_to(
    m: SessionModel,
    kind: TransportErrorKind,
    now: Moment,
)
    requires
        m.awaiting is Reply,
        m.server is Some,
        m.stage is LoginChallenge || m.stage is Login || m.stage is Primary || m.stage is Packet,
    ensures
        ({
            let t = session::next(m, SessionInput::ReceiveFailed(kind), now);
            let again = m.stage is Packet && m.stage->Packet_left > 0;
            &&& again ==> t == session::next(m, SessionInput::TimedOut, now)
            &&& !again ==> t.action == ActionView::Finished(Err(ErrorView::Transport(kind)))
                && t.events.len() == 0
        }),
{
    reveal(session::login_ended);
    reveal(session::keepalive_ended);
    reveal(session::packet_unanswered);
}

/// The packet that opens a pair, or the extra packet before it: the counter is its number and the
/// tail of the round stands in it.
pub open spec fn opening_packet(m: SessionModel, round: RoundView, version: Seq<u8>) -> Seq<u8> {
    keepalive::packet_bytes(
        round.counter,
        round.tail,
        KeepAlivePacketType::Type1,
        round.counter == 0 || round.counter % 21 == 0,
        seq![0x2fu8, 0x12],
        version,
        m.config.local_ipv4.bytes(),
        m.config.keepalive_checksum,
    )
}

/// A primary keep-alive is answered by any reply that begins with 7; the first 40-byte packet of
/// the round follows. Any other reply counts as none.
pub proof fn law_what_answers_the_primary(
    m: SessionModel,
    source: SocketAddrV4,
    datagram: Vec<u8>,
    now: Moment,
)
    requires
        m.stage is Primary,
        m.server == Some(source),
        m.config.keepalive_retries > 0,
    ensures
        ({
            let t = session::next(m, SessionInput::Received { source, datagram }, now);
            let round = m.stage->Primary_round;
            let answered = datagram@.len() > 0 && datagram@[0] == 7;
            let version = if datagram@.len() >= 30 {
                seq![datagram@[28], datagram@[29]]
            } else {
                m.version
            };
            &&& answered ==> t.action == (ActionView::Send {
                to: source,
                datagram: opening_packet(m, round, version),
            }) && t.model.version == version
            &&& answered && version == m.version ==> t.events.len() == 0
            &&& answered && version != m.version ==> t.events.len() == 1 && t.events[0]
                == EventView::Note(
                "保活版本 "@ + text::hex(m.version) + " 改为 "@ + text::hex(version)
                    + "（取自服务器响应）"@,
            )
            &&& !answered ==> t == session::next(m, SessionInput::TimedOut, now)
        }),
{
    reveal(session::primary_answered);
    reveal(session::packet_begun);
    reveal(session::packet_sent);
    reveal(session::keepalive_sent);
    if datagram@.len() >= 30 && datagram@[0] == 7 {
        keepalive::law_what_a_reply_carries(datagram@);
        assert(keepalive::version_of(datagram@)->0 =~= seq![datagram@[28], datagram@[29]]);
    }
    assert(keepalive::REFERENCE_NONCE@ =~= seq![0x2fu8, 0x12]);
}

/// A primary keep-alive that nobody answers goes out again as it was while a send is left; then the
/// server counts as quiet.
pub proof fn law_what_a_silent_primary_leads_to(m: SessionModel, now: Moment)
    requires
        m.stage is Primary,
        m.server is Some,
    ensures
        ({
            let t = session::next(m, SessionInput::TimedOut, now);
            let left = m.stage->Primary_left;
            &&& left > 0 ==> t.action == (ActionView::Send {
                to: m.server->0,
                datagram: keepalive::primary_bytes(
                    reference_login::first_digest_of(m.salt, m.config.password@),
                    m.cookie,
                    m.stage->seconds,
                ),
            }) && t.events.len() == 0 && t.model.stage->Primary_left == left - 1
            &&& left == 0 ==> t == session::gone_quiet(
                m,
                seq![EventView::Note("主保活连续无响应"@)],
                m.stage->Primary_round.restarts,
                "主保活"@,
                now,
            )
        }),
{
    reveal(session::primary_tried);
    reveal(session::keepalive_sent);
    assert(Seq::<EventView>::empty().push(EventView::Note("主保活连续无响应"@)) =~= seq![
        EventView::Note("主保活连续无响应"@),
    ]);
}

/// A server that went quiet is tried anew after a second, unless that has been done as often as the
/// settings allow: then the keep-alive ends and names where it stood.
pub proof fn law_what_a_quiet_server_leads_to(
    m: SessionModel,
    events: Seq<EventView>,
    restarts: u8,
    stage: Seq<char>,
    now: Moment,
)
    ensures
        ({
            let t = session::gone_quiet(m, events, restarts, stage, now);
            let retries = m.config.keepalive_retries as int;
            &&& restarts + 1 >= retries ==> t.action == ActionView::Finished(
                Err(ErrorView::NoResponse(stage)),
            ) && t.events == events
            &&& restarts + 1 < retries ==> t.action == (ActionView::Resync { ms: 1000 })
                && t.model.stage == (StageView::Resync { restarts: (restarts + 1) as u8 })
                && t.events == events.push(
                EventView::Note(
                    stage + "失败，重新进入主保活 ("@ + text::decimal((restarts + 1) as nat) + "/"@
                        + text::decimal(retries as nat) + ")"@,
                ),
            )
        }),
{
    reveal(session::gone_quiet);
    reveal(session::keepalive_ended);
}

/// Each acknowledged packet moves the counter on by one. The extra packet is followed by the type 1
/// packet with the old tail; the type 1 packet by the type 3 packet with the four bytes at offset
/// 16 of the reply; the type 3 packet by a report and the pause between two rounds.
pub proof fn law_what_an_acknowledgement_leads_to(
    m: SessionModel,
    source: SocketAddrV4,
    datagram: Vec<u8>,
    now: Moment,
)
    requires
        m.stage is Packet,
        m.server == Some(source),
        m.config.keepalive_retries > 0,
        datagram@.len() >= 20,
        datagram@[0] == 7,
        datagram@[2] == 0x28,
        datagram@[1] == m.stage->Packet_sequence,
        m.stage->Packet_round.tail.len() == 4,
    ensures
        ({
            let t = session::next(m, SessionInput::Received { source, datagram }, now);
            let round = m.stage->Packet_round;
            let form = m.stage->form;
            let counter = (if round.counter == 255 {
                0
            } else {
                round.counter + 1
            }) as u8;
            let tail = seq![datagram@[16], datagram@[17], datagram@[18], datagram@[19]];
            let version = if datagram@.len() >= 30 {
                seq![datagram@[28], datagram@[29]]
            } else {
                m.version
            };
            &&& t.model.version == version
            &&& form is Extra ==> t.action == ActionView::Send {
                to: source,
                datagram: keepalive::packet_bytes(
                    counter,
                    round.tail,
                    KeepAlivePacketType::Type1,
                    false,
                    seq![0x2fu8, 0x12],
                    version,
                    m.config.local_ipv4.bytes(),
                    m.config.keepalive_checksum,
                ),
            }
            &&& form is Type1 ==> t.action == ActionView::Send {
                to: source,
                datagram: keepalive::packet_bytes(
                    counter,
                    tail,
                    KeepAlivePacketType::Type3,
                    false,
                    seq![0x2fu8, 0x12],
                    version,
                    m.config.local_ipv4.bytes(),
                    m.config.keepalive_checksum,
                ),
            }
            &&& form is Type3 ==> t.action == (ActionView::Sleep {
                ms: m.config.keepalive_interval_ms,
                interruptible: true,
            }) && t.model.stage == (StageView::CyclePause {
                round: RoundView { counter, tail, restarts: round.restarts },
            }) && t.events.len() > 0 && t.events.last() == (EventView::KeepAliveCycle {
                sequence: counter,
                tail,
            })
        }),
{
    reveal(session::packet_replied);
    reveal(session::packet_answered);
    reveal(session::packet_begun);
    reveal(session::packet_sent);
    reveal(session::keepalive_sent);
    keepalive::law_what_a_reply_means(
        datagram@,
        m.stage->Packet_sequence,
        m.stage->form is Extra,
    );
    keepalive::law_what_a_reply_carries(datagram@);
    let round = m.stage->Packet_round;
    assert(keepalive::tail_after(round.tail, datagram@) =~= seq![
        datagram@[16],
        datagram@[17],
        datagram@[18],
        datagram@[19],
    ]);
    if datagram@.len() >= 30 {
        assert(keepalive::version_of(datagram@)->0 =~= seq![datagram@[28], datagram@[29]]);
    }
    assert(keepalive::REFERENCE_NONCE@ =~= seq![0x2fu8, 0x12]);
}

/// A packet that nobody answers goes out again as it was while a send is left; then the server
/// counts as quiet at the stage of that packet.
pub proof fn law_what_a_silent_packet_leads_to(m: SessionModel, now: Moment)
    requires
        m.stage is Packet,
        m.server is Some,
    ensures
        ({
            let t = session::next(m, SessionInput::TimedOut, now);
            let left = m.stage->Packet_left;
            let kind = if m.stage->form is Type3 {
                KeepAlivePacketType::Type3
            } else {
                KeepAlivePacketType::Type1
            };
            let name = if m.stage->form is Type3 {
                "保活 type3"@
            } else {
                "保活 type1"@
            };
            &&& left > 0 ==> t.action == (ActionView::Send {
                to: m.server->0,
                datagram: keepalive::packet_bytes(
                    m.stage->Packet_sequence,
                    m.stage->Packet_round.tail,
                    kind,
                    m.stage->first,
                    seq![0x2fu8, 0x12],
                    m.version,
                    m.config.local_ipv4.bytes(),
                    m.config.keepalive_checksum,
                ),
            }) && t.events.len() == 0
            &&& left == 0 ==> t == session::gone_quiet(
                m,
                Seq::empty(),
                m.stage->Packet_round.restarts,
                name,
                now,
            )
        }),
{
    reveal(session::packet_unanswered);
    reveal(session::packet_sent);
    reveal(session::keepalive_sent);
    assert(keepalive::REFERENCE_NONCE@ =~= seq![0x2fu8, 0x12]);
}

/// The pause between two rounds ends with the next round, which goes on with the counter and the
/// tail it has; the pause behind a quiet server ends with a round from the beginning. A pause that
/// is cut short ends the keep-alive.
pub proof fn law_what_follows_a_keepalive_pause(m: SessionModel, completed: bool, now: Moment)
    requires
        m.stage is CyclePause || m.stage is Resync,
        m.server is Some,
        m.config.keepalive_retries > 0,
        !now.stopped,
    ensures
        ({
            let t = session::next(m, SessionInput::Slept { completed }, now);
            &&& completed ==> t.action == (ActionView::Send {
                to: m.server->0,
                datagram: keepalive::primary_bytes(
                    reference_login::first_digest_of(m.salt, m.config.password@),
                    m.cookie,
                    now.unix_seconds,
                ),
            }) && t.events.len() == 0 && t.model.stage is Primary && t.model.stage->seconds
                == now.unix_seconds && t.model.stage->Primary_left == m.config.keepalive_retries - 1
            &&& completed && m.stage is CyclePause ==> t.model.stage->Primary_round
                == m.stage->CyclePause_round
            &&& completed && m.stage is Resync ==> t.model.stage->Primary_round == (RoundView {
                counter: 0,
                tail: seq![0u8, 0, 0, 0],
                restarts: m.stage->Resync_restarts,
            })
            &&& !completed && !m.running ==> t.action == ActionView::Finished(Ok(()))
        }),
{
    reveal(session::round_begun);
    reveal(session::rounds_begun);
    reveal(session::primary_tried);
    reveal(session::keepalive_sent);
    reveal(session::keepalive_ended);
    assert(bytes::zeros(4) =~= seq![0u8, 0, 0, 0]);
}

/// A logout ends when its frame has been answered or not: either way it counts as done, and the
/// reply is reported by its first byte and its length.
pub proof fn law_what_ends_a_logout(
    m: SessionModel,
    source: SocketAddrV4,
    datagram: Vec<u8>,
    now: Moment,
)
    requires
        m.stage is Logout,
        m.server == Some(source),
    ensures
        ({
            let answered = session::next(m, SessionInput::Received { source, datagram }, now);
            let silent = session::next(m, SessionInput::TimedOut, now);
            let data = datagram@;
            let out = EventView::Phase(SessionPhase::LoggedOut);
            &&& answered.action == ActionView::Finished(Ok(()))
            &&& silent.action == ActionView::Finished(Ok(()))
            &&& answered.events.len() == 2 && answered.events[1] == out
            &&& data.len() > 0 ==> answered.events[0] == EventView::Note(
                "下线响应 0x"@ + text::hex_byte(data[0]) + "，"@ + text::decimal(data.len())
                    + " 字节"@,
            )
            &&& silent.events.len() == 2 && silent.events[1] == out
            &&& silent.events[0] == EventView::Note("下线响应超时，连接已交由服务器回收"@)
        }),
{
    reveal(session::logout_closed);
    reveal(session::logout_ended);
}

/// A logout that is refused a challenge, or gets none, fails with that; in a run the failure is
/// reported and the run ends well.
pub proof fn law_what_a_missing_logout_challenge_leads_to(
    m: SessionModel,
    source: SocketAddrV4,
    datagram: Vec<u8>,
    now: Moment,
)
    requires
        m.stage is LogoutChallenge,
        session::concerns(m, source, datagram@),
        auth::is_refusal(datagram@),
    ensures
        ({
            let refused = session::next(m, SessionInput::Received { source, datagram }, now);
            let silent = session::next(m, SessionInput::TimedOut, now);
            &&& !m.running ==> refused.action == ActionView::Finished(
                Err(ErrorView::Challenge("服务器拒绝了下线挑战请求"@)),
            )
            &&& !m.running ==> silent.action == ActionView::Finished(
                Err(ErrorView::NoResponse("下线挑战"@)),
            )
            &&& m.running ==> refused.action == ActionView::Finished(Ok(()))
                && refused.events.len() == 1 && refused.events[0] == EventView::Note(
                "下线失败："@ + ("挑战失败："@ + "服务器拒绝了下线挑战请求"@),
            )
            &&& m.running ==> silent.action == ActionView::Finished(Ok(())) && silent.events.len()
                == 1 && silent.events[0] == EventView::Note(
                "下线失败："@ + ("认证服务器未响应："@ + "下线挑战"@),
            )
        }),
{
    reveal(session::logout_ended);
}

/// Without a server that answered a challenge there is nothing to keep alive and nothing to leave.
pub proof fn law_nothing_goes_out_without_a_server(m: SessionModel, now: Moment)
    requires
        m.server is None,
        !m.running,
        !now.stopped,
    ensures
        session::keepalive_begun(m, Seq::empty(), now).action == ActionView::Finished(
            Err(ErrorView::Challenge("尚未选定认证服务器"@)),
        ),
        session::logout_begun(m, Seq::empty(), now).action == ActionView::Finished(
            Err(ErrorView::Challenge("尚未选定认证服务器"@)),
        ),
{
    reveal(session::rounds_begun);
    reveal(session::round_begun);
    reveal(session::keepalive_ended);
    reveal(session::logout_begun);
    reveal(session::logout_ended);
}

/// Which errors come with advice: all but a stop, rejections other than 1, 7 and 11, socket
/// failures that nothing can be done about, and route errors other than missing rights.
pub proof fn law_which_errors_come_with_advice(error: ErrorView)
    ensures
        session::guidance_of(error) is None <==> {
            ||| error is Stopped
            ||| error is Rejected && error->Rejected_0.code != 1 && error->Rejected_0.code != 7
                && error->Rejected_0.code != 11
            ||| error is Transport && !(error->Transport_0 is AddrInUse) && !(error->Transport_0
                is NetworkDown) && !(error->Transport_0 is NetworkUnreachable) && !(
            error->Transport_0 is AddrNotAvailable) && !(error->Transport_0 is PermissionDenied)
            ||| error is Route && !(error->Route_0 is AccessDenied)
        },
        error is Configuration || error is Credentials ==> session::guidance_of(error) == Some(
            "请检查 drcom.ini 与界面上的账号密码"@,
        ),
        error is NoResponse ==> session::guidance_of(error) == Some(
            "请确认网线已插好或已连上校园 Wi-Fi，然后重试"@,
        ),
        error is Challenge ==> session::guidance_of(error) == Some(
            "该地址可能不是本部署的认证服务器，请检查配置里的 auth_server"@,
        ),
        error is LogoutPacket ==> session::guidance_of(error) == Some(
            "下线报文构造失败，服务端会话可能仍保留，通常会在超时后自行释放"@,
        ),
        error is Rejected && session::guidance_of(error) is Some ==> session::guidance_of(error)
            == Some("该账号可能已在其它设备上在线，或本机 IP/MAC 与登记不符"@),
        error is Route && session::guidance_of(error) is Some ==> session::guidance_of(error)
            == Some("添加认证服务器路由需要管理员权限"@),
        error is Transport && error->Transport_0 is AddrInUse ==> session::guidance_of(error)
            == Some("本地端口 61440 同一时刻只能被一个客户端占用"@),
        error is Transport && error->Transport_0 is PermissionDenied ==> session::guidance_of(error)
            == Some("请以管理员身份运行"@),
        error is Transport && (error->Transport_0 is NetworkDown || error->Transport_0
            is NetworkUnreachable || error->Transport_0 is AddrNotAvailable) ==>
            session::guidance_of(error) == Some("网卡地址可能已变化，请点“刷新”后重试"@),
{
}

/// What an error tells the user: its kind in words, and behind it what the error itself says.
pub proof fn law_the_words_of_an_error(error: ErrorView, explanation: Option<Seq<char>>)
    ensures
        ({
            let words = session::error_text(error, explanation);
            &&& error matches ErrorView::Configuration(reason) ==> match reason {
                RetryConfigError::NoServers => words == "认证服务器列表无效："@ + "NoServers"@,
                RetryConfigError::InvalidServer(server) => words == "认证服务器列表无效："@ + (
                "InvalidServer("@ + net::ipv4_text(server) + ")"@),
            }
            &&& error matches ErrorView::Challenge(reason) ==> words == "挑战失败："@ + reason
            &&& error matches ErrorView::Credentials(reason) ==> words
                == "账号或密码长度不合法："@ + (if reason is PasswordTooLong {
                "PasswordTooLong"@
            } else {
                "UsernameTooLong"@
            })
            &&& error matches ErrorView::Rejected(failure) ==> match explanation {
                Some(said) => words == said + "（错误码 "@ + text::decimal(failure.code as nat)
                    + "）"@,
                None => words == "认证被服务器拒绝，错误码 "@ + text::decimal(failure.code as nat),
            }
            &&& error matches ErrorView::NoResponse(stage) ==> words == "认证服务器未响应："@
                + stage
            &&& error is Stopped ==> words == "会话已停止"@
            &&& error is LogoutPacket ==> words == "下线报文无法构造："@ + "PasswordTooLong"@
            &&& error matches ErrorView::Route(reason) ==> match reason {
                RouteError::NoInterface => words == "找不到通往认证服务器的接口"@,
                RouteError::NoGateway => words == "选中接口没有默认网关，无法添加认证服务器路由"@,
                RouteError::AccessDenied => words
                    == "添加认证服务器路由被拒绝，请以管理员身份运行"@,
                RouteError::Refused(code) => words == "添加认证服务器路由失败，错误码 "@
                    + text::decimal(code as nat),
                RouteError::Unsupported => words == "当前平台不支持认证服务器路由管理"@,
            }
        }),
{
}

/// A session does not start where routes are to be managed and a server ended up without one; the
/// first failure is the reason. In every other case it starts.
pub proof fn law_when_routes_keep_a_session_from_starting(
    config: SessionConfig,
    outcome: OutcomeView,
)
    ensures
        ({
            let refusal = session::route_refusal(config, outcome);
            let asked = config.servers@.len();
            let routed = outcome.failed.len() == 0 && outcome.installed.len()
                + outcome.already_present == asked;
            &&& refusal is Some <==> config.auth_route == RouteMode::Manage && asked > 0 && !routed
            &&& refusal is Some && outcome.failed.len() > 0 ==> refusal == Some(outcome.failed[0].1)
            &&& refusal is Some && outcome.failed.len() == 0 ==> refusal == Some(
                RouteError::Refused(0),
            )
        }),
{
}

/// What a pass tells of a server: what was done and by which way, that nothing was done in a trial,
/// or that it failed and why.
pub proof fn law_what_a_pass_tells(report: RouteReport, applying: bool)
    ensures
        ({
            let told = session::report_words(report, applying);
            let server = net::ipv4_text(report.plan.server);
            let way = server + " 经由 "@ + net::ipv4_text(report.plan.gateway) + " IF "@
                + text::decimal(report.plan.interface_index as nat);
            let word = if report.action is Add {
                "添加"@
            } else {
                "删除"@
            };
            &&& report.result is Ok && applying ==> told == word + "认证服务器路由 "@ + way
            &&& report.result is Ok && !applying ==> told
                == "认证服务器路由（试运行，未修改路由表）"@ + way
            &&& report.result matches Err(error) ==> told == word + "认证服务器路由 "@ + server
                + " 失败："@ + crate::route::error_name(error)
        }),
{
}

/// What the removal of a route tells: the server, and why it failed where it did.
pub proof fn law_what_a_removal_tells(route: InstalledRoute, result: Result<(), RouteError>)
    ensures
        ({
            let told = session::removal_words(route, result);
            let server = net::ipv4_text(route.plan.server);
            &&& result is Ok ==> told == "已移除认证服务器路由 "@ + server
            &&& result matches Err(error) ==> told == "移除认证服务器路由 "@ + server
                + " 失败："@ + crate::route::error_name(error)
        }),
{
}

/// A guarded run asks for the session first, then for the removal of each route that was installed,
/// in order and whatever came of the others, and then for nothing more; the result stays that of
/// the session.
pub proof fn law_what_a_guarded_run_asks_for(
    guard: GuardView,
    outcome: OutcomeView,
    result: Result<(), ErrorView>,
)
    ensures
        GuardView::opened(outcome).installed == outcome.installed,
        GuardView::opened(outcome).request() == GuardRequest::Run,
        guard.result is None ==> guard.request() == GuardRequest::Run,
        guard.result is Some && guard.removed < guard.installed.len() ==> guard.request()
            == GuardRequest::Remove(guard.installed[guard.removed as int]),
        guard.result is Some && guard.removed >= guard.installed.len() ==> guard.request()
            == GuardRequest::Done,
        guard.run_ended(result) == (GuardView {
            installed: guard.installed,
            removed: guard.removed,
            result: Some(result),
        }),
        guard.route_removed() == (GuardView {
            installed: guard.installed,
            removed: guard.removed + 1,
            result: guard.result,
        }),
{
}

} // verus!
