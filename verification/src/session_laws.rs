//! What holds of every session, whatever the network does.

use vstd::prelude::*;

use crate::auth;
use crate::bytes;
use crate::keepalive;
use crate::login_response::{self, ResponseView};
use crate::net::{Ipv4Addr, SocketAddrV4};
use crate::protocol;
use crate::reference_login;
use crate::retry::{self, RetryState};
use crate::session::{
    self, ActionView, Awaiting, ErrorView, EventView, Moment, PacketForm, RoundView, SessionConfig,
    SessionInput, SessionModel, SessionPhase, StageView, TurnView,
};
use crate::transport::TransportErrorKind;

verus! {

/// Whether a session is logging in.
pub open spec fn logging_in(m: SessionModel) -> bool {
    m.stage is LoginChallenge || m.stage is Login || m.stage is LoginPause
}

/// Whether a session is keeping itself alive.
pub open spec fn keeping_alive(m: SessionModel) -> bool {
    m.stage is Primary || m.stage is Packet || m.stage is CyclePause || m.stage is Resync
}

/// Whether a session is logging out.
pub open spec fn logging_out(m: SessionModel) -> bool {
    m.stage is LogoutPing || m.stage is LogoutPause || m.stage is LogoutChallenge || m.stage
        is Logout
}

/// A server's rejection of the login ends it: nothing more is sent, and the reason comes out.
pub proof fn law_a_rejection_is_final(
    m: SessionModel,
    source: SocketAddrV4,
    datagram: Vec<u8>,
    now: Moment,
)
    requires
        m.stage is Login,
        m.server == Some(source),
        login_response::parsed(datagram@) is Failure,
    ensures
        session::next(m, SessionInput::Received { source, datagram }, now).action
            == ActionView::Finished(
            Err(
                ErrorView::Rejected(
                    login_response::parsed(datagram@)->Failure_0,
                ),
            ),
        ),
{
    reveal(session::login_replied);
    reveal(session::login_ended);
}

/// How many more datagrams a login can send at most.
pub open spec fn login_sends_left(m: SessionModel) -> int {
    2 * m.retry.remaining() + (if m.stage is LoginPause {
        2int
    } else if m.stage is LoginChallenge {
        1
    } else {
        0
    })
}

/// Whether a turn keeps within the sends that a login has left.
pub open spec fn within_budget(m: SessionModel, t: TurnView) -> bool {
    &&& t.model.retry.valid()
    &&& logging_in(t.model) ==> 0 <= login_sends_left(t.model) <= login_sends_left(m)
    &&& logging_in(t.model) && t.action is Send ==> login_sends_left(t.model) < login_sends_left(
        m,
    )
}

proof fn lemma_spent(m: SessionModel)
    requires
        m.retry.valid(),
    ensures
        m.retry.after_timeout().valid(),
        m.retry.remaining() >= 0,
        m.retry.after_timeout().remaining() >= 0,
        !(m.retry.timeout_outcome() is AllServersExhausted)
            ==> m.retry.after_timeout().remaining() == m.retry.remaining() - 1,
{
    retry::law_budget_stays_valid(m.retry);
    retry::law_each_timeout_takes_one(m.retry);
    retry::law_each_timeout_takes_one(m.retry.after_timeout());
}

proof fn lemma_within_ended(
    m: SessionModel,
    a: SessionModel,
    events: Seq<EventView>,
    result: Result<(), ErrorView>,
    now: Moment,
)
    requires
        a.retry.valid(),
    ensures
        within_budget(m, session::login_ended(a, events, result, now)),
{
    lemma_login_ended(a, events, result, now);
}

proof fn lemma_within_retried(m: SessionModel, events: Seq<EventView>, now: Moment)
    requires
        m.stage is Login,
        m.retry.valid(),
    ensures
        within_budget(m, session::login_retried(m, events, now)),
{
    reveal(session::login_retried);
    lemma_spent(m);
    let spent = SessionModel { retry: m.retry.after_timeout(), ..m };
    lemma_within_ended(m, spent, events, Err(ErrorView::NoResponse("登录"@)), now);
}

proof fn lemma_within_unanswered(m: SessionModel, events: Seq<EventView>, now: Moment)
    requires
        m.stage is LoginChallenge,
        m.retry.valid(),
    ensures
        within_budget(m, session::challenge_unanswered(m, events, now)),
{
    reveal(session::challenge_unanswered);
    reveal(session::challenge_sent);
    lemma_spent(m);
    let spent = SessionModel { retry: m.retry.after_timeout(), ..m };
    lemma_within_ended(m, spent, events, Err(ErrorView::NoResponse("挑战"@)), now);
}

proof fn lemma_within_accepted(
    m: SessionModel,
    events: Seq<EventView>,
    source: SocketAddrV4,
    challenge: Seq<u8>,
    now: Moment,
)
    requires
        m.stage is LoginChallenge,
        m.retry.valid(),
    ensures
        within_budget(m, session::challenge_accepted(m, events, source, challenge, now)),
{
    reveal(session::challenge_accepted);
    lemma_spent(m);
    let known = SessionModel { server: Some(source), salt: challenge, ..m };
    let said = session::phase(
        session::note(
            events,
            "挑战已接受：salt="@ + crate::text::hex(challenge) + " 序号="@
                + crate::text::decimal(m.sequence as nat) + " 来自 "@
                + crate::net::endpoint_text(source),
        ),
        SessionPhase::Authenticating,
    );
    let long_name = Err(
        ErrorView::Credentials(reference_login::BuildError::UsernameTooLong),
    );
    let long_word = Err(
        ErrorView::Credentials(reference_login::BuildError::PasswordTooLong),
    );
    lemma_within_ended(m, known, said, long_name, now);
    lemma_within_ended(m, known, said, long_word, now);
}

proof fn lemma_within_replied(m: SessionModel, reply: Seq<u8>, now: Moment)
    requires
        m.stage is Login,
        m.retry.valid(),
    ensures
        within_budget(m, session::login_replied(m, Seq::empty(), reply, now)),
{
    reveal(session::login_replied);
    let none = Seq::<EventView>::empty();
    match login_response::parsed(reply) {
        ResponseView::Success { session_cookie, raw } => {
            let online = SessionModel {
                cookie: session_cookie,
                connected_since: Some(now.uptime_ms),
                ..m
            };
            let said = session::phase(
                session::note(none, "认证成功，会话尾码 "@ + crate::text::hex(session_cookie)),
                SessionPhase::Online,
            );
            lemma_within_ended(m, online, said, Ok(()), now);
        },
        ResponseView::Failure(failure) => {
            let said = session::note(
                none,
                "认证被拒绝，错误码 "@ + crate::text::decimal(failure.code as nat),
            );
            lemma_within_ended(m, m, said, Err(ErrorView::Rejected(failure)), now);
        },
        ResponseView::Other(kind) => {
            let said = session::note(
                none,
                "未识别的响应类型 0x"@ + crate::text::hex_byte(kind) + "，重新认证"@,
            );
            lemma_within_retried(m, said, now);
        },
        ResponseView::ShortSuccess { .. } | ResponseView::TooShort => {
            lemma_within_retried(m, session::note(none, "响应过短，重新认证"@), now);
        },
    }
}

proof fn lemma_within_begun(m: SessionModel, now: Moment)
    requires
        m.stage is LoginPause,
        m.retry.valid(),
    ensures
        within_budget(m, session::login_begun(m, Seq::empty(), now)),
{
    reveal(session::login_begun);
    reveal(session::challenge_sent);
    lemma_spent(m);
    lemma_within_ended(m, m, Seq::empty(), Err(ErrorView::Stopped), now);
}

/// A login ends: no step of it can send more than is left, and every datagram it sends takes one
/// from that, whichever server stays silent and whatever arrives.
pub proof fn law_a_login_sends_boundedly(m: SessionModel, input: SessionInput, now: Moment)
    requires
        logging_in(m),
        m.retry.valid(),
        session::expected(m, input),
        m.stage is LoginPause <==> m.awaiting is Wake,
    ensures
        within_budget(m, session::next(m, input, now)),
{
    let none = Seq::<EventView>::empty();
    lemma_spent(m);
    match input {
        SessionInput::Sent => {},
        SessionInput::SendFailed(kind) => {
            lemma_within_ended(m, m, none, Err(ErrorView::Transport(kind)), now);
        },
        SessionInput::Received { source, datagram } => {
            if session::concerns(m, source, datagram@) {
                if m.stage is LoginChallenge {
                    lemma_within_ended(
                        m,
                        m,
                        none,
                        Err(ErrorView::Challenge("服务器拒绝了挑战请求"@)),
                        now,
                    );
                    lemma_within_accepted(m, none, source, datagram@.subrange(4, 8), now);
                } else {
                    lemma_within_replied(m, datagram@, now);
                }
            }
        },
        SessionInput::TimedOut => {
            if m.stage is LoginChallenge {
                lemma_within_unanswered(m, none, now);
            } else {
                lemma_within_retried(m, session::note(none, "登录 响应超时"@), now);
            }
        },
        SessionInput::ReceiveFailed(kind) => {
            lemma_within_ended(m, m, none, Err(ErrorView::Transport(kind)), now);
        },
        SessionInput::Slept { completed } => {
            lemma_within_begun(m, now);
            lemma_within_ended(m, m, none, Err(ErrorView::Stopped), now);
        },
    }
}

/// A login keeps waiting only where it pauses: what the law on its sends asks of a session holds
/// of every login that has begun, and of every step of one.
pub proof fn law_a_login_waits_only_in_its_pause(
    m: SessionModel,
    input: SessionInput,
    now: Moment,
)
    requires
        logging_in(m),
        session::expected(m, input),
        m.stage is LoginPause <==> m.awaiting is Wake,
    ensures
        ({
            let t = session::next(m, input, now);
            logging_in(t.model) ==> (t.model.stage is LoginPause <==> t.model.awaiting is Wake)
        }),
{
    reveal(session::login_replied);
    reveal(session::login_retried);
    reveal(session::login_begun);
    reveal(session::challenge_sent);
    reveal(session::challenge_accepted);
    reveal(session::challenge_unanswered);
    assert forall|a: SessionModel, events: Seq<EventView>, result: Result<(), ErrorView>|
        !logging_in((#[trigger] session::login_ended(a, events, result, now)).model) by {
        lemma_login_ended(a, events, result, now);
    }
}

/// A login that begins on a full budget can send two datagrams for each send of the budget.
pub proof fn law_a_login_starts_with_a_full_budget(config: SessionConfig, now: Moment)
    requires
        config.servers@.len() > 0,
        !now.stopped,
    ensures
        ({
            let t = session::login_begun(
                session::fresh_session(config),
                Seq::empty(),
                now,
            );
            &&& t.action is Send
            &&& t.model.retry.valid()
            &&& t.model.stage is LoginChallenge
            &&& t.model.sequence == session::FIRST_CHALLENGE_SEQUENCE
            &&& login_sends_left(t.model) == 6 * config.servers@.len() - 1
        }),
{
    reveal(session::login_begun);
    reveal(session::challenge_sent);
    assert(RetryState::fresh(config.servers@).remaining() == 3 * config.servers@.len() - 1);
}

/// What a session keeps once it is online: settings, budget, challenge, cookie and server.
pub open spec fn same_login(a: SessionModel, b: SessionModel) -> bool {
    &&& a.config == b.config
    &&& a.retry == b.retry
    &&& a.salt == b.salt
    &&& a.cookie == b.cookie
    &&& a.server == b.server
    &&& a.connected_since == b.connected_since
    &&& a.running == b.running
}

proof fn lemma_logout_ended(m: SessionModel, events: Seq<EventView>, r: Result<(), ErrorView>)
    ensures
        same_login(m, session::logout_ended(m, events, r).model),
        session::logout_ended(m, events, r).model.stage is Idle,
        session::logout_ended(m, events, r).model.version == m.version,
        session::logout_ended(m, events, r).action is Finished,
{
    reveal(session::logout_ended);
}

proof fn lemma_logout_begun(m: SessionModel, events: Seq<EventView>, now: Moment)
    ensures
        same_login(m, session::logout_begun(m, events, now).model),
        session::logout_begun(m, events, now).model.stage is Idle || session::logout_begun(
            m,
            events,
            now,
        ).model.stage is LogoutPing,
{
    reveal(session::logout_begun);
    lemma_logout_ended(m, events, Err(session::no_server()));
}

proof fn lemma_keepalive_ended(
    m: SessionModel,
    events: Seq<EventView>,
    r: Result<(), ErrorView>,
    now: Moment,
)
    ensures
        same_login(m, session::keepalive_ended(m, events, r, now).model),
        session::keepalive_ended(m, events, r, now).model.stage is Idle
            || session::keepalive_ended(m, events, r, now).model.stage is LogoutPing,
{
    reveal(session::keepalive_ended);
    lemma_logout_begun(m, events, now);
}

proof fn lemma_gone_quiet(
    m: SessionModel,
    events: Seq<EventView>,
    restarts: u8,
    stage: Seq<char>,
    now: Moment,
)
    ensures
        same_login(m, session::gone_quiet(m, events, restarts, stage, now).model),
        !logging_in(session::gone_quiet(m, events, restarts, stage, now).model),
{
    reveal(session::gone_quiet);
    lemma_keepalive_ended(m, events, Err(ErrorView::NoResponse(stage)), now);
}

proof fn lemma_keepalive_sent(
    m: SessionModel,
    events: Seq<EventView>,
    stage: StageView,
    datagram: Seq<u8>,
    now: Moment,
)
    requires
        stage is Primary || stage is Packet,
    ensures
        same_login(m, session::keepalive_sent(m, events, stage, datagram, now).model),
        !logging_in(session::keepalive_sent(m, events, stage, datagram, now).model),
{
    reveal(session::keepalive_sent);
    lemma_keepalive_ended(m, events, Err(session::no_server()), now);
}

proof fn lemma_primary_tried(
    m: SessionModel,
    events: Seq<EventView>,
    round: RoundView,
    seconds: u64,
    left: u8,
    now: Moment,
)
    ensures
        same_login(m, session::primary_tried(m, events, round, seconds, left, now).model),
        !logging_in(session::primary_tried(m, events, round, seconds, left, now).model),
{
    reveal(session::primary_tried);
    if left == 0 {
        lemma_gone_quiet(
            m,
            session::note(events, "主保活连续无响应"@),
            round.restarts,
            "主保活"@,
            now,
        );
    } else {
        lemma_keepalive_sent(
            m,
            events,
            StageView::Primary { round, seconds, left: (left - 1) as u8 },
            session::primary_datagram(m, seconds),
            now,
        );
    }
}

proof fn lemma_round_begun(
    m: SessionModel,
    events: Seq<EventView>,
    round: RoundView,
    now: Moment,
)
    ensures
        same_login(m, session::round_begun(m, events, round, now).model),
        !logging_in(session::round_begun(m, events, round, now).model),
{
    reveal(session::round_begun);
    lemma_keepalive_ended(m, events, Err(session::no_server()), now);
    lemma_primary_tried(m, events, round, now.unix_seconds, m.config.keepalive_retries, now);
}

proof fn lemma_rounds_begun(
    m: SessionModel,
    events: Seq<EventView>,
    restarts: u8,
    now: Moment,
)
    ensures
        same_login(m, session::rounds_begun(m, events, restarts, now).model),
        !logging_in(session::rounds_begun(m, events, restarts, now).model),
{
    reveal(session::rounds_begun);
    lemma_keepalive_ended(m, events, Ok(()), now);
    lemma_round_begun(
        m,
        events,
        RoundView { counter: 0, tail: bytes::zeros(4), restarts },
        now,
    );
}

proof fn lemma_login_ended(
    m: SessionModel,
    events: Seq<EventView>,
    r: Result<(), ErrorView>,
    now: Moment,
)
    ensures
        same_login(m, session::login_ended(m, events, r, now).model),
        !logging_in(session::login_ended(m, events, r, now).model),
{
    reveal(session::login_ended);
    lemma_rounds_begun(m, session::phase(events, SessionPhase::KeepAlive), 0, now);
}

proof fn lemma_packet_sent(
    m: SessionModel,
    events: Seq<EventView>,
    round: RoundView,
    form: PacketForm,
    sequence: u8,
    first: bool,
    left: u8,
    now: Moment,
)
    ensures
        same_login(
            m,
            session::packet_sent(m, events, round, form, sequence, first, left, now).model,
        ),
{
    reveal(session::packet_sent);
    reveal(session::keepalive_sent);
    lemma_keepalive_ended(m, events, Err(session::no_server()), now);
}

proof fn lemma_packet_begun(
    m: SessionModel,
    events: Seq<EventView>,
    round: RoundView,
    form: PacketForm,
    now: Moment,
)
    ensures
        same_login(m, session::packet_begun(m, events, round, form, now).model),
{
    reveal(session::packet_begun);
    lemma_gone_quiet(
        m,
        events,
        round.restarts,
        session::stage_name(session::form_type(form)),
        now,
    );
    if m.config.keepalive_retries > 0 {
        lemma_packet_sent(
            m,
            events,
            round,
            form,
            round.counter,
            form is Extra,
            (m.config.keepalive_retries - 1) as u8,
            now,
        );
    }
}

proof fn lemma_packet_answered(
    m: SessionModel,
    events: Seq<EventView>,
    round: RoundView,
    form: PacketForm,
    reply: Seq<u8>,
    now: Moment,
)
    ensures
        same_login(m, session::packet_answered(m, events, round, form, reply, now).model),
{
    reveal(session::packet_answered);
    let counter = round.counter.wrapping_add(1);
    let tail = keepalive::tail_after(round.tail, reply);
    lemma_packet_begun(m, events, RoundView { counter, ..round }, PacketForm::Type1, now);
    lemma_packet_begun(m, events, RoundView { counter, tail, ..round }, PacketForm::Type3, now);
}

proof fn lemma_packet_replied(
    m: SessionModel,
    events: Seq<EventView>,
    round: RoundView,
    form: PacketForm,
    sequence: u8,
    first: bool,
    left: u8,
    reply: Seq<u8>,
    now: Moment,
)
    ensures
        same_login(
            m,
            session::packet_replied(
                m,
                events,
                round,
                form,
                sequence,
                first,
                left,
                reply,
                now,
            ).model,
        ),
{
    reveal(session::packet_replied);
    let next = sequence.wrapping_add(1);
    let said = session::note(
        events,
        "服务器推送 "@ + crate::text::decimal(reply.len()) + " 字节消息，保活序号推进到 "@
            + crate::text::decimal(next as nat),
    );
    let stage = session::stage_name(session::form_type(form));
    lemma_gone_quiet(m, said, round.restarts, stage, now);
    lemma_gone_quiet(m, events, round.restarts, stage, now);
    lemma_packet_answered(
        session::adopted(m, reply),
        session::adoption_noted(m, events, reply),
        round,
        form,
        reply,
        now,
    );
    if left > 0 {
        lemma_packet_sent(m, said, round, form, next, false, (left - 1) as u8, now);
        lemma_packet_sent(m, events, round, form, sequence, first, (left - 1) as u8, now);
    }
}

proof fn lemma_packet_unanswered(
    m: SessionModel,
    events: Seq<EventView>,
    round: RoundView,
    form: PacketForm,
    sequence: u8,
    first: bool,
    left: u8,
    failure: Option<TransportErrorKind>,
    now: Moment,
)
    ensures
        same_login(
            m,
            session::packet_unanswered(
                m,
                events,
                round,
                form,
                sequence,
                first,
                left,
                failure,
                now,
            ).model,
        ),
{
    reveal(session::packet_unanswered);
    lemma_gone_quiet(
        m,
        events,
        round.restarts,
        session::stage_name(session::form_type(form)),
        now,
    );
    if let Some(kind) = failure {
        lemma_keepalive_ended(m, events, Err(ErrorView::Transport(kind)), now);
    }
    if left > 0 {
        lemma_packet_sent(m, events, round, form, sequence, first, (left - 1) as u8, now);
    }
}

/// Online, a session keeps what the login gave it: the challenge, the cookie, the server and the
/// budget are the same after every step of the keep-alive and of the logout.
pub proof fn law_the_login_survives(m: SessionModel, input: SessionInput, now: Moment)
    requires
        keeping_alive(m) || logging_out(m),
        session::expected(m, input),
    ensures
        same_login(m, session::next(m, input, now).model),
{
    let none = Seq::<EventView>::empty();
    match input {
        SessionInput::Sent => {},
        SessionInput::SendFailed(kind) => {
            lemma_keepalive_ended(m, none, Err(ErrorView::Transport(kind)), now);
            lemma_logout_ended(m, none, Err(ErrorView::Transport(kind)));
        },
        SessionInput::Received { source, datagram } => {
            lemma_reply_keeps(m, source, datagram@, now);
        },
        SessionInput::TimedOut => {
            lemma_silence_keeps(m, now);
        },
        SessionInput::ReceiveFailed(kind) => {
            lemma_keepalive_ended(m, none, Err(ErrorView::Transport(kind)), now);
            lemma_logout_ended(m, none, Err(ErrorView::Transport(kind)));
            if let StageView::Packet { round, form, sequence, first, left } = m.stage {
                lemma_packet_unanswered(
                    m,
                    none,
                    round,
                    form,
                    sequence,
                    first,
                    left,
                    Some(kind),
                    now,
                );
            }
        },
        SessionInput::Slept { completed } => {
            lemma_keepalive_ended(m, none, Ok(()), now);
            lemma_keepalive_ended(m, none, Err(ErrorView::Stopped), now);
            lemma_logout_ended(m, none, Err(ErrorView::Stopped));
            lemma_logout_ended(m, none, Err(session::no_server()));
            match m.stage {
                StageView::CyclePause { round } => lemma_round_begun(m, none, round, now),
                StageView::Resync { restarts } => lemma_rounds_begun(m, none, restarts, now),
                StageView::LogoutPause { nonce } => {
                    reveal(session::logout_challenged);
                },
                _ => {},
            }
        },
    }
}

proof fn lemma_reply_keeps(m: SessionModel, source: SocketAddrV4, datagram: Seq<u8>, now: Moment)
    requires
        keeping_alive(m) || logging_out(m),
    ensures
        same_login(m, session::after_reply(m, source, datagram, now).model),
{
    let none = Seq::<EventView>::empty();
    match m.stage {
        StageView::Primary { round, seconds, left } => {
            reveal(session::primary_answered);
            let a = session::adopted(m, datagram);
            let noted = session::adoption_noted(m, none, datagram);
            lemma_packet_begun(a, noted, round, PacketForm::Extra, now);
            lemma_packet_begun(a, noted, round, PacketForm::Type1, now);
            lemma_primary_tried(m, none, round, seconds, left, now);
        },
        StageView::Packet { round, form, sequence, first, left } => {
            lemma_packet_replied(m, none, round, form, sequence, first, left, datagram, now);
        },
        StageView::LogoutChallenge { nonce } => {
            reveal(session::logout_answered);
            reveal(session::logout_ended);
        },
        _ => {
            reveal(session::logout_closed);
            reveal(session::logout_ended);
        },
    }
}

proof fn lemma_silence_keeps(m: SessionModel, now: Moment)
    requires
        keeping_alive(m) || logging_out(m),
    ensures
        same_login(m, session::after_silence(m, now).model),
{
    let none = Seq::<EventView>::empty();
    match m.stage {
        StageView::Primary { round, seconds, left } => {
            lemma_primary_tried(m, none, round, seconds, left, now);
        },
        StageView::Packet { round, form, sequence, first, left } => {
            lemma_packet_unanswered(m, none, round, form, sequence, first, left, None, now);
        },
        _ => {
            reveal(session::logout_closed);
            reveal(session::logout_ended);
        },
    }
}

/// A datagram that is not from the server that answered the challenge changes nothing and is not
/// even reported, except while a challenge is out.
pub proof fn law_only_the_answering_server_counts(
    m: SessionModel,
    source: SocketAddrV4,
    datagram: Vec<u8>,
    now: Moment,
)
    requires
        m.server != Some(source),
        !(m.stage is LoginChallenge),
        !(m.stage is LogoutChallenge),
    ensures
        session::next(m, SessionInput::Received { source, datagram }, now) == (TurnView {
            model: m,
            events: Seq::empty(),
            action: ActionView::KeepReceiving,
        }),
{
}

/// The source of an accepted challenge is the server from then on, and the login frame goes to it.
pub proof fn law_the_challenge_decides_the_server(
    m: SessionModel,
    source: SocketAddrV4,
    datagram: Vec<u8>,
    now: Moment,
)
    requires
        m.stage is LoginChallenge,
        session::concerns(m, source, datagram@),
        !auth::is_refusal(datagram@),
        m.config.username@.len() <= reference_login::ACCOUNT_FIELD_LEN,
        m.config.password@.len() <= reference_login::MAX_PASSWORD_LEN,
    ensures
        ({
            let t = session::next(m, SessionInput::Received { source, datagram }, now);
            &&& t.model.server == Some(source)
            &&& t.model.salt == datagram@.subrange(4, 8)
            &&& t.model.retry == m.retry
            &&& t.action == ActionView::Send {
                to: source,
                datagram: reference_login::login_frame(
                    datagram@.subrange(4, 8),
                    m.config.username@,
                    m.config.password@,
                    session::profile_of(m.config),
                ),
            }
        }),
{
    reveal(session::challenge_accepted);
}

/// A successful login keeps the cookie of the answer, and every primary keep-alive repeats it
/// behind the digest of the challenge that the login answered.
pub proof fn law_the_cookie_comes_from_the_answer(
    m: SessionModel,
    source: SocketAddrV4,
    datagram: Vec<u8>,
    now: Moment,
    seconds: u64,
)
    requires
        m.stage is Login,
        m.server == Some(source),
        login_response::parsed(datagram@) is Success,
    ensures
        ({
            let t = session::next(m, SessionInput::Received { source, datagram }, now);
            &&& t.model.cookie == datagram@.subrange(23, 39)
            &&& t.model.salt == m.salt
            &&& t.model.server == m.server
            &&& session::primary_datagram(t.model, seconds) == keepalive::primary_bytes(
                reference_login::first_digest_of(m.salt, m.config.password@),
                datagram@.subrange(23, 39),
                seconds,
            )
        }),
{
    reveal(session::login_replied);
    let online = SessionModel {
        cookie: datagram@.subrange(23, 39),
        connected_since: Some(now.uptime_ms),
        ..m
    };
    let said = session::phase(
        session::note(
            Seq::empty(),
            "认证成功，会话尾码 "@ + crate::text::hex(datagram@.subrange(23, 39)),
        ),
        SessionPhase::Online,
    );
    lemma_login_ended(online, said, Ok(()), now);
}

/// A silent server cannot keep a session sending: each further send of a keep-alive datagram
/// takes one from what is left, and when nothing is left the run starts over at most as often as
/// the settings say, or ends.
pub proof fn law_silence_ends_the_keepalive(m: SessionModel, now: Moment)
    requires
        m.stage is Primary || m.stage is Packet,
        m.server is Some,
    ensures
        ({
            let t = session::next(m, SessionInput::TimedOut, now);
            match m.stage {
                StageView::Primary { round, seconds, left } => if left > 0 {
                    t.action is Send && t.model.stage == (StageView::Primary {
                        round,
                        seconds,
                        left: (left - 1) as u8,
                    })
                } else {
                    started_over_or_ended(m, t, round.restarts)
                },
                StageView::Packet { round, form, sequence, first, left } => if left > 0 {
                    t.action is Send && t.model.stage == (StageView::Packet {
                        round,
                        form,
                        sequence,
                        first,
                        left: (left - 1) as u8,
                    })
                } else {
                    started_over_or_ended(m, t, round.restarts)
                },
                _ => true,
            }
        }),
{
    reveal(session::primary_tried);
    reveal(session::packet_unanswered);
    reveal(session::packet_sent);
    reveal(session::keepalive_sent);
    reveal(session::gone_quiet);
    reveal(session::keepalive_ended);
}

/// Whether a turn starts the keep-alive over, for the next time in the limit, or ends it.
pub open spec fn started_over_or_ended(m: SessionModel, t: TurnView, restarts: u8) -> bool {
    ||| {
        &&& t.action == ActionView::Resync { ms: session::RESYNC_DELAY_MS }
        &&& t.model.stage == (StageView::Resync { restarts: (restarts + 1) as u8 })
        &&& restarts + 1 < m.config.keepalive_retries
    }
    ||| {
        &&& t.action is Finished
        &&& t.action->Finished_0 is Err
        &&& t.action->Finished_0->Err_0 is NoResponse
        &&& restarts + 1 >= m.config.keepalive_retries
    }
}

/// A pushed message is answered with the same packet under the next number, without the opening
/// marker, as long as a send is left. Without one `law_only_an_acknowledgement_completes_a_packet`
/// says what it comes to.
pub proof fn law_a_message_is_answered_by_a_resend(
    m: SessionModel,
    source: SocketAddrV4,
    datagram: Vec<u8>,
    now: Moment,
)
    requires
        m.stage is Packet,
        m.stage->Packet_left > 0,
        m.server == Some(source),
        keepalive::message_packet(datagram@),
    ensures
        ({
            let t = session::next(m, SessionInput::Received { source, datagram }, now);
            let next = m.stage->Packet_sequence.wrapping_add(1);
            &&& t.action == ActionView::Send {
                to: source,
                datagram: keepalive::packet_bytes(
                    next,
                    m.stage->Packet_round.tail,
                    session::form_type(m.stage->form),
                    false,
                    keepalive::REFERENCE_NONCE@,
                    m.version,
                    m.config.local_ipv4.bytes(),
                    m.config.keepalive_checksum,
                ),
            }
            &&& t.model.stage == (StageView::Packet {
                round: m.stage->Packet_round,
                form: m.stage->form,
                sequence: next,
                first: false,
                left: (m.stage->Packet_left - 1) as u8,
            })
        }),
{
    reveal(session::packet_replied);
    reveal(session::packet_sent);
    reveal(session::keepalive_sent);
}

/// Whether a reply is no acknowledgement of the packet that is out: a pushed message, or a reply
/// that does not fit the packet.
pub open spec fn unacknowledged(m: SessionModel, reply: Seq<u8>) -> bool {
    ||| keepalive::message_packet(reply)
    ||| keepalive::classified(reply, m.stage->Packet_sequence, m.stage->form is Extra)
        == keepalive::KeepAliveResponse::Invalid
}

/// Only an acknowledgement completes a packet. Any other reply has the same packet of the same
/// round sent again, and when no send is left it ends as silence does. Neither reports a round as
/// complete, and neither takes a tail or a version over.
pub proof fn law_only_an_acknowledgement_completes_a_packet(
    m: SessionModel,
    source: SocketAddrV4,
    datagram: Vec<u8>,
    now: Moment,
)
    requires
        m.stage is Packet,
        m.server == Some(source),
        unacknowledged(m, datagram@),
    ensures
        ({
            let t = session::next(m, SessionInput::Received { source, datagram }, now);
            let silent = session::next(m, SessionInput::TimedOut, now);
            &&& t.model.version == m.version
            &&& forall|i: int| 0 <= i < t.events.len() ==> !(t.events[i] is KeepAliveCycle)
            &&& if m.stage->Packet_left > 0 {
                &&& t.action is Send
                &&& t.model.stage is Packet
                &&& t.model.stage->Packet_round == m.stage->Packet_round
                &&& t.model.stage->form == m.stage->form
                &&& t.model.stage->Packet_left == m.stage->Packet_left - 1
            } else {
                &&& t.action == silent.action
                &&& t.model == silent.model
                &&& started_over_or_ended(m, t, m.stage->Packet_round.restarts)
            }
        }),
{
    reveal(session::packet_replied);
    reveal(session::packet_unanswered);
    reveal(session::packet_sent);
    reveal(session::keepalive_sent);
    reveal(session::gone_quiet);
    reveal(session::keepalive_ended);
}

/// The order of a round: behind the primary keep-alive comes the extra packet exactly when the
/// counter is a multiple of 21, then the type 1 packet, then the type 3 packet, then the pause;
/// each 40-byte packet carries the counter and moves it on by one.
pub proof fn law_the_order_of_a_round(
    m: SessionModel,
    events: Seq<EventView>,
    round: RoundView,
    reply: Seq<u8>,
    now: Moment,
)
    requires
        m.server is Some,
        m.config.keepalive_retries > 0,
    ensures
        ({
            let left = (m.config.keepalive_retries - 1) as u8;
            let counter = round.counter.wrapping_add(1);
            let tail = keepalive::tail_after(round.tail, reply);
            let opened = session::primary_answered(m, events, round, now);
            let extra = session::packet_answered(m, events, round, PacketForm::Extra, reply, now);
            let type1 = session::packet_answered(m, events, round, PacketForm::Type1, reply, now);
            let type3 = session::packet_answered(m, events, round, PacketForm::Type3, reply, now);
            &&& opened.model.stage == (StageView::Packet {
                round,
                form: if round.counter % 21 == 0 {
                    PacketForm::Extra
                } else {
                    PacketForm::Type1
                },
                sequence: round.counter,
                first: round.counter % 21 == 0,
                left,
            })
            &&& extra.model.stage == (StageView::Packet {
                round: RoundView { counter, ..round },
                form: PacketForm::Type1,
                sequence: counter,
                first: false,
                left,
            })
            &&& type1.model.stage == (StageView::Packet {
                round: RoundView { counter, tail, ..round },
                form: PacketForm::Type3,
                sequence: counter,
                first: false,
                left,
            })
            &&& type3.model.stage == (StageView::CyclePause {
                round: RoundView { counter, tail, ..round },
            })
            &&& type3.events == events.push(EventView::KeepAliveCycle { sequence: counter, tail })
        }),
{
    reveal(session::primary_answered);
    reveal(session::packet_answered);
    reveal(session::packet_begun);
    reveal(session::packet_sent);
    reveal(session::keepalive_sent);
}

/// The counter after a round: three packets with the extra one, two without.
pub open spec fn counter_after_round(counter: u8) -> u8 {
    if counter % 21 == 0 {
        counter.wrapping_add(1).wrapping_add(1).wrapping_add(1)
    } else {
        counter.wrapping_add(1).wrapping_add(1)
    }
}

/// The counter after `n` rounds.
pub open spec fn counter_after_rounds(counter: u8, n: nat) -> u8
    decreases n,
{
    if n == 0 {
        counter
    } else {
        counter_after_round(counter_after_rounds(counter, (n - 1) as nat))
    }
}

/// The extra packet returns with every tenth round: nine rounds behind one that opens with it do
/// not, and the tenth does, with the counter at the next multiple of 21. The counter is one byte
/// wide, so this holds up to the multiple 252.
pub proof fn law_the_extra_packet_returns_every_tenth_round(counter: u8, n: nat)
    requires
        counter % 21 == 0,
        counter < 252,
        1 <= n <= 10,
    ensures
        counter_after_rounds(counter, n) == counter + 2 * n + 1,
        counter_after_rounds(counter, n) % 21 == 0 <==> n == 10,
{
    lemma_rounds(counter, n);
}

proof fn lemma_rounds(counter: u8, n: nat)
    requires
        counter % 21 == 0,
        counter < 252,
        1 <= n <= 10,
    ensures
        counter_after_rounds(counter, n) == counter + 2 * n + 1,
    decreases n,
{
    assert(counter <= 231);
    if n == 1 {
        reveal_with_fuel(counter_after_rounds, 2);
    } else {
        lemma_rounds(counter, (n - 1) as nat);
        let before = counter_after_rounds(counter, (n - 1) as nat);
        assert(before % 21 != 0);
    }
}

/// A session that is stopped before it begins sends nothing and reports nothing.
pub proof fn law_a_stopped_login_sends_nothing(m: SessionModel, now: Moment)
    requires
        now.stopped,
    ensures
        session::login_begun(m, Seq::empty(), now).action == ActionView::Finished(
            Err(ErrorView::Stopped),
        ),
        session::login_begun(m, Seq::empty(), now).events == Seq::<EventView>::empty(),
{
    reveal(session::login_begun);
    reveal(session::login_ended);
}

/// Stopping a run during the keep-alive leads to the logout: the pause ends with the ping that a
/// logout begins with.
pub proof fn law_stopping_a_run_logs_out(m: SessionModel, now: Moment)
    requires
        m.running,
        m.server is Some,
        m.stage is CyclePause || m.stage is Resync,
    ensures
        ({
            let t = session::next(m, SessionInput::Slept { completed: false }, now);
            &&& t.action == ActionView::Send {
                to: m.server->0,
                datagram: session::primary_datagram(m, now.unix_seconds),
            }
            &&& t.model.stage is LogoutPing
        }),
{
    reveal(session::keepalive_ended);
    reveal(session::logout_begun);
}

/// What comes of a wait that nothing ends: the datagram is sent again and waited for again, as
/// often as the session asks for it, `n` times at most.
pub open spec fn waited_out(m: SessionModel, now: Moment, n: nat) -> TurnView
    decreases n,
{
    let turn = session::next(m, SessionInput::TimedOut, now);
    if n > 0 && turn.action is Send {
        waited_out(session::next(turn.model, SessionInput::Sent, now).model, now, (n - 1) as nat)
    } else {
        turn
    }
}

/// How many sends of a keep-alive datagram are left.
pub open spec fn sends_left(m: SessionModel) -> nat {
    match m.stage {
        StageView::Primary { left, .. } => left as nat,
        StageView::Packet { left, .. } => left as nat,
        _ => 0,
    }
}

/// How often the keep-alive has been started over.
pub open spec fn times_restarted(m: SessionModel) -> nat {
    match m.stage {
        StageView::Primary { round, .. } => round.restarts as nat,
        StageView::Packet { round, .. } => round.restarts as nat,
        _ => 0,
    }
}

/// A stop that comes while a keep-alive datagram is out is honoured by a logout, although the
/// server stays silent: the sends that are left go out, the run is about to start over, and in
/// place of that the logout begins. Left out is a wait that is the last one anyway, which ends the
/// run with the server's silence.
pub proof fn law_a_stop_during_a_wait_logs_out(m: SessionModel, now: Moment, n: nat)
    requires
        m.running,
        m.server is Some,
        m.stage is Primary || m.stage is Packet,
        times_restarted(m) + 1 < m.config.keepalive_retries,
        n >= sends_left(m),
    ensures
        ({
            let quiet = waited_out(m, now, n);
            let t = session::next(quiet.model, SessionInput::Slept { completed: false }, now);
            &&& quiet.action is Resync
            &&& t.action is Send
            &&& t.action->to == m.server->0
            &&& t.model.stage is LogoutPing
        }),
    decreases sends_left(m),
{
    law_silence_ends_the_keepalive(m, now);
    let turn = session::next(m, SessionInput::TimedOut, now);
    if sends_left(m) > 0 {
        let sent = session::next(turn.model, SessionInput::Sent, now).model;
        reveal(session::primary_tried);
        reveal(session::packet_unanswered);
        reveal(session::packet_sent);
        reveal(session::keepalive_sent);
        law_a_stop_during_a_wait_logs_out(sent, now, (n - 1) as nat);
    } else {
        reveal(session::primary_tried);
        reveal(session::packet_unanswered);
        reveal(session::gone_quiet);
        law_stopping_a_run_logs_out(turn.model, now);
    }
}

/// The order of a logout: a ping to the server, a pause that nothing cuts short, a challenge to the
/// same server under the next number, and when it is answered the logout frame made from the
/// answer. A password that the frame cannot hold is left out.
pub proof fn law_the_order_of_a_logout(
    m: SessionModel,
    now: Moment,
    sent: Moment,
    awake: Moment,
    answered: Moment,
    reply: Vec<u8>,
)
    requires
        m.server is Some,
        m.config.password@.len() <= protocol::PASSWORD_FIELD_LEN,
        !auth::is_refusal(reply@),
    ensures
        ({
            let server = m.server->0;
            let sequence = m.sequence.wrapping_add(1);
            let pinged = session::logout_begun(m, Seq::empty(), now);
            let paused = session::next(pinged.model, SessionInput::Sent, sent);
            let asked = session::next(paused.model, SessionInput::Slept { completed: true }, awake);
            let waiting = session::next(asked.model, SessionInput::Sent, awake);
            let left = session::next(
                waiting.model,
                SessionInput::Received { source: server, datagram: reply },
                answered,
            );
            &&& pinged.action == ActionView::Send {
                to: server,
                datagram: session::primary_datagram(m, now.unix_seconds),
            }
            &&& paused.action == ActionView::Sleep {
                ms: auth::LOGOUT_PAUSE_MS,
                interruptible: false,
            }
            &&& asked.action == ActionView::Send {
                to: server,
                datagram: protocol::challenge_request_frame(
                    sequence,
                    session::nonce_at(now),
                    session::CHALLENGE_CLIENT_OPTION,
                ),
            }
            &&& waiting.action is Receive
            &&& session::concerns(waiting.model, server, reply@) ==> left.action
                == ActionView::Send {
                to: server,
                datagram: protocol::logout_frame(
                    reply@.subrange(4, 8),
                    m.config.username@,
                    m.config.password@,
                    m.config.control_status,
                    sequence,
                    reference_login::be_bytes(m.config.mac, 6),
                    m.cookie,
                ),
            }
        }),
{
    reveal(session::logout_begun);
    reveal(session::logout_challenged);
    reveal(session::logout_answered);
    lemma_until_nul_shortens(m.config.password@);
}

/// A logout in a run never fails the run, and a frame that was sent is never sent again.
pub proof fn law_a_logout_is_best_effort(m: SessionModel, input: SessionInput, now: Moment)
    requires
        logging_out(m),
        session::expected(m, input),
    ensures
        ({
            let t = session::next(m, input, now);
            &&& m.running && t.action is Finished ==> t.action->Finished_0 is Ok
            &&& m.stage is Logout ==> !(t.action is Send)
        }),
{
    reveal(session::logout_ended);
    reveal(session::logout_closed);
    reveal(session::logout_answered);
    reveal(session::logout_challenged);
}

/// An account and its password.
pub struct Credentials {
    pub username: Vec<u8>,
    pub password: Vec<u8>,
}

/// The session with other credentials.
pub open spec fn with_credentials(m: SessionModel, other: Credentials) -> SessionModel {
    SessionModel {
        config: SessionConfig {
            username: other.username,
            password: other.password,
            ..m.config
        },
        ..m
    }
}

/// Whether credentials can stand for those of a session without a difference in size: both
/// accounts fit the login frame or neither does, and the passwords are equally long.
pub open spec fn comparable(m: SessionModel, other: Credentials) -> bool {
    &&& other.password@.len() == m.config.password@.len()
    &&& other.username@.len() <= reference_login::ACCOUNT_FIELD_LEN
        <==> m.config.username@.len() <= reference_login::ACCOUNT_FIELD_LEN
}

/// Whether two turns look the same from outside, apart from the bytes of a datagram, and leave
/// sessions behind that differ in the credentials only.
pub open spec fn look_alike(a: TurnView, b: TurnView, other: Credentials) -> bool {
    &&& b.model == with_credentials(a.model, other)
    &&& a.events == b.events
    &&& a.action is Send <==> b.action is Send
    &&& !(a.action is Send) ==> a.action == b.action
}

proof fn alike_logout_ended(
    m: SessionModel,
    p: Credentials,
    events: Seq<EventView>,
    r: Result<(), ErrorView>,
)
    ensures
        look_alike(
            session::logout_ended(m, events, r),
            session::logout_ended(with_credentials(m, p), events, r),
            p,
        ),
{
    reveal(session::logout_ended);
}

proof fn alike_logout_begun(m: SessionModel, p: Credentials, events: Seq<EventView>, now: Moment)
    ensures
        look_alike(
            session::logout_begun(m, events, now),
            session::logout_begun(with_credentials(m, p), events, now),
            p,
        ),
{
    reveal(session::logout_begun);
    alike_logout_ended(m, p, events, Err(session::no_server()));
}

proof fn alike_keepalive_ended(
    m: SessionModel,
    p: Credentials,
    events: Seq<EventView>,
    r: Result<(), ErrorView>,
    now: Moment,
)
    ensures
        look_alike(
            session::keepalive_ended(m, events, r, now),
            session::keepalive_ended(with_credentials(m, p), events, r, now),
            p,
        ),
{
    reveal(session::keepalive_ended);
    alike_logout_begun(m, p, events, now);
}

proof fn alike_gone_quiet(
    m: SessionModel,
    p: Credentials,
    events: Seq<EventView>,
    restarts: u8,
    stage: Seq<char>,
    now: Moment,
)
    ensures
        look_alike(
            session::gone_quiet(m, events, restarts, stage, now),
            session::gone_quiet(with_credentials(m, p), events, restarts, stage, now),
            p,
        ),
{
    reveal(session::gone_quiet);
    alike_keepalive_ended(m, p, events, Err(ErrorView::NoResponse(stage)), now);
}

proof fn alike_keepalive_sent(
    m: SessionModel,
    p: Credentials,
    events: Seq<EventView>,
    stage: StageView,
    one: Seq<u8>,
    other: Seq<u8>,
    now: Moment,
)
    ensures
        look_alike(
            session::keepalive_sent(m, events, stage, one, now),
            session::keepalive_sent(with_credentials(m, p), events, stage, other, now),
            p,
        ),
{
    reveal(session::keepalive_sent);
    alike_keepalive_ended(m, p, events, Err(session::no_server()), now);
}

proof fn alike_primary_tried(
    m: SessionModel,
    p: Credentials,
    events: Seq<EventView>,
    round: RoundView,
    seconds: u64,
    left: u8,
    now: Moment,
)
    ensures
        look_alike(
            session::primary_tried(m, events, round, seconds, left, now),
            session::primary_tried(with_credentials(m, p), events, round, seconds, left, now),
            p,
        ),
{
    reveal(session::primary_tried);
    alike_gone_quiet(
        m,
        p,
        session::note(events, "主保活连续无响应"@),
        round.restarts,
        "主保活"@,
        now,
    );
    if left > 0 {
        alike_keepalive_sent(
            m,
            p,
            events,
            StageView::Primary { round, seconds, left: (left - 1) as u8 },
            session::primary_datagram(m, seconds),
            session::primary_datagram(with_credentials(m, p), seconds),
            now,
        );
    }
}

proof fn alike_round_begun(
    m: SessionModel,
    p: Credentials,
    events: Seq<EventView>,
    round: RoundView,
    now: Moment,
)
    ensures
        look_alike(
            session::round_begun(m, events, round, now),
            session::round_begun(with_credentials(m, p), events, round, now),
            p,
        ),
{
    reveal(session::round_begun);
    alike_keepalive_ended(m, p, events, Err(session::no_server()), now);
    alike_primary_tried(m, p, events, round, now.unix_seconds, m.config.keepalive_retries, now);
}

proof fn alike_rounds_begun(
    m: SessionModel,
    p: Credentials,
    events: Seq<EventView>,
    restarts: u8,
    now: Moment,
)
    ensures
        look_alike(
            session::rounds_begun(m, events, restarts, now),
            session::rounds_begun(with_credentials(m, p), events, restarts, now),
            p,
        ),
{
    reveal(session::rounds_begun);
    alike_keepalive_ended(m, p, events, Ok(()), now);
    alike_round_begun(
        m,
        p,
        events,
        RoundView { counter: 0, tail: bytes::zeros(4), restarts },
        now,
    );
}

proof fn alike_packet_sent(
    m: SessionModel,
    p: Credentials,
    events: Seq<EventView>,
    round: RoundView,
    form: PacketForm,
    sequence: u8,
    first: bool,
    left: u8,
    now: Moment,
)
    ensures
        look_alike(
            session::packet_sent(m, events, round, form, sequence, first, left, now),
            session::packet_sent(
                with_credentials(m, p),
                events,
                round,
                form,
                sequence,
                first,
                left,
                now,
            ),
            p,
        ),
{
    reveal(session::packet_sent);
    let datagram = keepalive::packet_bytes(
        sequence,
        round.tail,
        session::form_type(form),
        first,
        keepalive::REFERENCE_NONCE@,
        m.version,
        m.config.local_ipv4.bytes(),
        m.config.keepalive_checksum,
    );
    alike_keepalive_sent(
        m,
        p,
        events,
        StageView::Packet { round, form, sequence, first, left },
        datagram,
        datagram,
        now,
    );
}

proof fn alike_packet_begun(
    m: SessionModel,
    p: Credentials,
    events: Seq<EventView>,
    round: RoundView,
    form: PacketForm,
    now: Moment,
)
    ensures
        look_alike(
            session::packet_begun(m, events, round, form, now),
            session::packet_begun(with_credentials(m, p), events, round, form, now),
            p,
        ),
{
    reveal(session::packet_begun);
    alike_gone_quiet(
        m,
        p,
        events,
        round.restarts,
        session::stage_name(session::form_type(form)),
        now,
    );
    if m.config.keepalive_retries > 0 {
        alike_packet_sent(
            m,
            p,
            events,
            round,
            form,
            round.counter,
            form is Extra,
            (m.config.keepalive_retries - 1) as u8,
            now,
        );
    }
}

proof fn alike_packet_answered(
    m: SessionModel,
    p: Credentials,
    events: Seq<EventView>,
    round: RoundView,
    form: PacketForm,
    reply: Seq<u8>,
    now: Moment,
)
    ensures
        look_alike(
            session::packet_answered(m, events, round, form, reply, now),
            session::packet_answered(with_credentials(m, p), events, round, form, reply, now),
            p,
        ),
{
    reveal(session::packet_answered);
    let counter = round.counter.wrapping_add(1);
    let tail = keepalive::tail_after(round.tail, reply);
    alike_packet_begun(m, p, events, RoundView { counter, ..round }, PacketForm::Type1, now);
    alike_packet_begun(m, p, events, RoundView { counter, tail, ..round }, PacketForm::Type3, now);
}

proof fn alike_packet_replied(
    m: SessionModel,
    p: Credentials,
    events: Seq<EventView>,
    round: RoundView,
    form: PacketForm,
    sequence: u8,
    first: bool,
    left: u8,
    reply: Seq<u8>,
    now: Moment,
)
    ensures
        look_alike(
            session::packet_replied(
                m,
                events,
                round,
                form,
                sequence,
                first,
                left,
                reply,
                now,
            ),
            session::packet_replied(
                with_credentials(m, p),
                events,
                round,
                form,
                sequence,
                first,
                left,
                reply,
                now,
            ),
            p,
        ),
{
    reveal(session::packet_replied);
    let next = sequence.wrapping_add(1);
    let said = session::note(
        events,
        "服务器推送 "@ + crate::text::decimal(reply.len()) + " 字节消息，保活序号推进到 "@
            + crate::text::decimal(next as nat),
    );
    let stage = session::stage_name(session::form_type(form));
    alike_gone_quiet(m, p, said, round.restarts, stage, now);
    alike_gone_quiet(m, p, events, round.restarts, stage, now);
    alike_packet_answered(
        session::adopted(m, reply),
        p,
        session::adoption_noted(m, events, reply),
        round,
        form,
        reply,
        now,
    );
    if left > 0 {
        alike_packet_sent(m, p, said, round, form, next, false, (left - 1) as u8, now);
        alike_packet_sent(m, p, events, round, form, sequence, first, (left - 1) as u8, now);
    }
}

proof fn alike_packet_unanswered(
    m: SessionModel,
    p: Credentials,
    events: Seq<EventView>,
    round: RoundView,
    form: PacketForm,
    sequence: u8,
    first: bool,
    left: u8,
    failure: Option<TransportErrorKind>,
    now: Moment,
)
    ensures
        look_alike(
            session::packet_unanswered(
                m,
                events,
                round,
                form,
                sequence,
                first,
                left,
                failure,
                now,
            ),
            session::packet_unanswered(
                with_credentials(m, p),
                events,
                round,
                form,
                sequence,
                first,
                left,
                failure,
                now,
            ),
            p,
        ),
{
    reveal(session::packet_unanswered);
    alike_gone_quiet(
        m,
        p,
        events,
        round.restarts,
        session::stage_name(session::form_type(form)),
        now,
    );
    if let Some(kind) = failure {
        alike_keepalive_ended(m, p, events, Err(ErrorView::Transport(kind)), now);
    }
    if left > 0 {
        alike_packet_sent(m, p, events, round, form, sequence, first, (left - 1) as u8, now);
    }
}

proof fn alike_login_ended(
    m: SessionModel,
    p: Credentials,
    events: Seq<EventView>,
    r: Result<(), ErrorView>,
    now: Moment,
)
    ensures
        look_alike(
            session::login_ended(m, events, r, now),
            session::login_ended(with_credentials(m, p), events, r, now),
            p,
        ),
{
    reveal(session::login_ended);
    alike_rounds_begun(m, p, session::phase(events, SessionPhase::KeepAlive), 0, now);
}

proof fn alike_challenge_accepted(
    m: SessionModel,
    p: Credentials,
    events: Seq<EventView>,
    source: SocketAddrV4,
    challenge: Seq<u8>,
    now: Moment,
)
    requires
        comparable(m, p),
    ensures
        look_alike(
            session::challenge_accepted(m, events, source, challenge, now),
            session::challenge_accepted(with_credentials(m, p), events, source, challenge, now),
            p,
        ),
{
    reveal(session::challenge_accepted);
    let known = SessionModel { server: Some(source), salt: challenge, ..m };
    let said = session::phase(
        session::note(
            events,
            "挑战已接受：salt="@ + crate::text::hex(challenge) + " 序号="@
                + crate::text::decimal(m.sequence as nat) + " 来自 "@
                + crate::net::endpoint_text(source),
        ),
        SessionPhase::Authenticating,
    );
    let long_name = Err(
        ErrorView::Credentials(reference_login::BuildError::UsernameTooLong),
    );
    let long_word = Err(
        ErrorView::Credentials(reference_login::BuildError::PasswordTooLong),
    );
    alike_login_ended(known, p, said, long_name, now);
    alike_login_ended(known, p, said, long_word, now);
    let profile = session::profile_of(m.config);
    reference_login::law_frame_length(challenge, m.config.username@, m.config.password@, profile);
    reference_login::law_frame_length(challenge, p.username@, p.password@, profile);
    assert(session::profile_of(with_credentials(m, p).config) == profile);
}

proof fn alike_login(m: SessionModel, p: Credentials, events: Seq<EventView>, now: Moment)
    ensures
        look_alike(
            session::login_retried(m, events, now),
            session::login_retried(with_credentials(m, p), events, now),
            p,
        ),
        look_alike(
            session::challenge_unanswered(m, events, now),
            session::challenge_unanswered(with_credentials(m, p), events, now),
            p,
        ),
        look_alike(
            session::login_begun(m, events, now),
            session::login_begun(with_credentials(m, p), events, now),
            p,
        ),
{
    reveal(session::login_retried);
    reveal(session::challenge_unanswered);
    reveal(session::challenge_sent);
    reveal(session::login_begun);
    let spent = SessionModel { retry: m.retry.after_timeout(), ..m };
    alike_login_ended(spent, p, events, Err(ErrorView::NoResponse("登录"@)), now);
    alike_login_ended(spent, p, events, Err(ErrorView::NoResponse("挑战"@)), now);
    alike_login_ended(m, p, events, Err(ErrorView::Stopped), now);
}

proof fn alike_login_replied(
    m: SessionModel,
    p: Credentials,
    reply: Seq<u8>,
    now: Moment,
)
    ensures
        look_alike(
            session::login_replied(m, Seq::empty(), reply, now),
            session::login_replied(with_credentials(m, p), Seq::empty(), reply, now),
            p,
        ),
{
    reveal(session::login_replied);
    let none = Seq::<EventView>::empty();
    match login_response::parsed(reply) {
        ResponseView::Success { session_cookie, raw } => {
            let online = SessionModel {
                cookie: session_cookie,
                connected_since: Some(now.uptime_ms),
                ..m
            };
            let said = session::phase(
                session::note(none, "认证成功，会话尾码 "@ + crate::text::hex(session_cookie)),
                SessionPhase::Online,
            );
            alike_login_ended(online, p, said, Ok(()), now);
        },
        ResponseView::Failure(failure) => {
            let said = session::note(
                none,
                "认证被拒绝，错误码 "@ + crate::text::decimal(failure.code as nat),
            );
            alike_login_ended(m, p, said, Err(ErrorView::Rejected(failure)), now);
        },
        ResponseView::Other(kind) => {
            let said = session::note(
                none,
                "未识别的响应类型 0x"@ + crate::text::hex_byte(kind) + "，重新认证"@,
            );
            alike_login(m, p, said, now);
        },
        ResponseView::ShortSuccess { .. } | ResponseView::TooShort => {
            alike_login(m, p, session::note(none, "响应过短，重新认证"@), now);
        },
    }
}

proof fn lemma_until_nul_shortens(data: Seq<u8>)
    ensures
        bytes::until_nul(data).len() <= data.len(),
    decreases data.len(),
{
    if data.len() > 0 && data[0] != 0 {
        lemma_until_nul_shortens(data.skip(1));
    }
}

proof fn alike_logout(m: SessionModel, p: Credentials, challenge: Seq<u8>, nonce: u16, reply: Option<Seq<u8>>)
    requires
        p.password@.len() <= protocol::PASSWORD_FIELD_LEN,
        m.config.password@.len() <= protocol::PASSWORD_FIELD_LEN,
    ensures
        look_alike(
            session::logout_answered(m, Seq::empty(), challenge),
            session::logout_answered(with_credentials(m, p), Seq::empty(), challenge),
            p,
        ),
        look_alike(
            session::logout_challenged(m, Seq::empty(), nonce),
            session::logout_challenged(with_credentials(m, p), Seq::empty(), nonce),
            p,
        ),
        look_alike(
            session::logout_closed(m, Seq::empty(), reply),
            session::logout_closed(with_credentials(m, p), Seq::empty(), reply),
            p,
        ),
{
    reveal(session::logout_answered);
    reveal(session::logout_challenged);
    reveal(session::logout_closed);
    reveal(session::logout_ended);
    lemma_until_nul_shortens(p.password@);
    lemma_until_nul_shortens(m.config.password@);
}

/// Nothing that a session reports depends on what the account or the password is: with other
/// credentials of comparable size it reports the same, asks for the same, and ends the same.
/// Passwords that do not fit the logout frame are left out: whether one is refused there depends
/// on where it holds a zero byte.
pub proof fn law_reports_do_not_depend_on_the_credentials(
    m: SessionModel,
    other: Credentials,
    input: SessionInput,
    now: Moment,
)
    requires
        session::expected(m, input),
        comparable(m, other),
        other.password@.len() <= protocol::PASSWORD_FIELD_LEN,
    ensures
        look_alike(
            session::next(m, input, now),
            session::next(with_credentials(m, other), input, now),
            other,
        ),
{
    let none = Seq::<EventView>::empty();
    let p = other;
    match input {
        SessionInput::Sent => {},
        SessionInput::SendFailed(kind) => {
            alike_operation_ended(m, p, Err(ErrorView::Transport(kind)), now);
        },
        SessionInput::Received { source, datagram } => {
            alike_reply(m, p, source, datagram@, now);
        },
        SessionInput::TimedOut => {
            alike_silence(m, p, now);
        },
        SessionInput::ReceiveFailed(kind) => {
            alike_operation_ended(m, p, Err(ErrorView::Transport(kind)), now);
            if let StageView::Packet { round, form, sequence, first, left } = m.stage {
                alike_packet_unanswered(
                    m,
                    p,
                    none,
                    round,
                    form,
                    sequence,
                    first,
                    left,
                    Some(kind),
                    now,
                );
            }
        },
        SessionInput::Slept { completed } => {
            alike_operation_ended(m, p, Err(ErrorView::Stopped), now);
            alike_login(m, p, none, now);
            alike_login_ended(m, p, none, Err(ErrorView::Stopped), now);
            alike_keepalive_ended(m, p, none, Ok(()), now);
            match m.stage {
                StageView::CyclePause { round } => alike_round_begun(m, p, none, round, now),
                StageView::Resync { restarts } => alike_rounds_begun(m, p, none, restarts, now),
                StageView::LogoutPause { nonce } => alike_logout(m, p, none_bytes(), nonce, None),
                _ => {},
            }
        },
    }
}

spec fn none_bytes() -> Seq<u8> {
    Seq::empty()
}

proof fn alike_operation_ended(
    m: SessionModel,
    p: Credentials,
    r: Result<(), ErrorView>,
    now: Moment,
)
    ensures
        look_alike(
            session::operation_ended(m, r, now),
            session::operation_ended(with_credentials(m, p), r, now),
            p,
        ),
{
    let none = Seq::<EventView>::empty();
    alike_login_ended(m, p, none, r, now);
    alike_keepalive_ended(m, p, none, r, now);
    alike_logout_ended(m, p, none, r);
}

proof fn alike_reply(
    m: SessionModel,
    p: Credentials,
    source: SocketAddrV4,
    datagram: Seq<u8>,
    now: Moment,
)
    requires
        comparable(m, p),
        p.password@.len() <= protocol::PASSWORD_FIELD_LEN,
    ensures
        session::concerns(m, source, datagram) == session::concerns(
            with_credentials(m, p),
            source,
            datagram,
        ),
        look_alike(
            session::after_reply(m, source, datagram, now),
            session::after_reply(with_credentials(m, p), source, datagram, now),
            p,
        ),
{
    let none = Seq::<EventView>::empty();
    assert(session::pending_exchange(m) == session::pending_exchange(with_credentials(m, p)));
    match m.stage {
        StageView::LoginChallenge { nonce } => {
            alike_login_ended(
                m,
                p,
                none,
                Err(ErrorView::Challenge("服务器拒绝了挑战请求"@)),
                now,
            );
            alike_challenge_accepted(m, p, none, source, datagram.subrange(4, 8), now);
        },
        StageView::Login => {
            alike_login_replied(m, p, datagram, now);
        },
        StageView::Primary { round, seconds, left } => {
            reveal(session::primary_answered);
            let a = session::adopted(m, datagram);
            let noted = session::adoption_noted(m, none, datagram);
            alike_packet_begun(a, p, noted, round, PacketForm::Extra, now);
            alike_packet_begun(a, p, noted, round, PacketForm::Type1, now);
            alike_primary_tried(m, p, none, round, seconds, left, now);
        },
        StageView::Packet { round, form, sequence, first, left } => {
            alike_packet_replied(m, p, none, round, form, sequence, first, left, datagram, now);
        },
        StageView::LogoutChallenge { nonce } => {
            alike_logout_ended(
                m,
                p,
                none,
                Err(ErrorView::Challenge("服务器拒绝了下线挑战请求"@)),
            );
            alike_logout(m, p, datagram.subrange(4, 8), nonce, None);
        },
        _ => {
            alike_logout(m, p, datagram, 0, Some(datagram));
        },
    }
}

proof fn alike_silence(m: SessionModel, p: Credentials, now: Moment)
    requires
        comparable(m, p),
        p.password@.len() <= protocol::PASSWORD_FIELD_LEN,
    ensures
        look_alike(
            session::after_silence(m, now),
            session::after_silence(with_credentials(m, p), now),
            p,
        ),
{
    let none = Seq::<EventView>::empty();
    alike_login(m, p, none, now);
    alike_login(m, p, session::note(none, "登录 响应超时"@), now);
    alike_logout_ended(m, p, none, Err(ErrorView::NoResponse("下线挑战"@)));
    alike_logout(m, p, none_bytes(), 0, None);
    match m.stage {
        StageView::Primary { round, seconds, left } => {
            alike_primary_tried(m, p, none, round, seconds, left, now);
        },
        StageView::Packet { round, form, sequence, first, left } => {
            alike_packet_unanswered(m, p, none, round, form, sequence, first, left, None, now);
        },
        _ => {},
    }
}

/// A login, a keep-alive and a logout begin alike as well, whatever the credentials are.
pub proof fn law_operations_begin_alike(m: SessionModel, other: Credentials, now: Moment)
    ensures
        look_alike(
            session::login_begun(m, Seq::empty(), now),
            session::login_begun(with_credentials(m, other), Seq::empty(), now),
            other,
        ),
        look_alike(
            session::keepalive_begun(m, Seq::empty(), now),
            session::keepalive_begun(with_credentials(m, other), Seq::empty(), now),
            other,
        ),
        look_alike(
            session::logout_begun(m, Seq::empty(), now),
            session::logout_begun(with_credentials(m, other), Seq::empty(), now),
            other,
        ),
{
    let none = Seq::<EventView>::empty();
    alike_login(m, other, none, now);
    alike_rounds_begun(m, other, session::phase(none, SessionPhase::KeepAlive), 0, now);
    alike_logout_begun(m, other, none, now);
}

} // verus!
