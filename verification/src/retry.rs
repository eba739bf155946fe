//! The login timeout rule: three sends to each server, then the next server, then exhaustion.

use vstd::prelude::*;

use crate::net::Ipv4Addr;

verus! {

pub const MAX_LOGIN_SENDS_PER_SERVER: u8 = 3;

#[derive(Debug, Clone, Copy, PartialEq, Eq, Structural)]
pub enum LoginTimeout {
    RetrySameServer(Ipv4Addr),
    SwitchServer(Ipv4Addr),
    AllServersExhausted,
}

#[derive(Debug, Clone, Copy, PartialEq, Eq, Structural)]
pub enum RetryConfigError {
    NoServers,
    InvalidServer(Ipv4Addr),
}

/// The login budget that the challenge and the login send share. Counts actual sends, the first
/// one included.
#[derive(Debug)]
pub struct LoginRetry {
    servers: Vec<Ipv4Addr>,
    active_index: usize,
    sends_on_active_server: u8,
}

/// What a `LoginRetry` stands for: the servers in order, the one in use, and the sends to it.
pub struct RetryState {
    pub servers: Seq<Ipv4Addr>,
    pub index: nat,
    pub sends: nat,
}

/// Whether an address stands for the absence of a server.
pub open spec fn sentinel(server: Ipv4Addr, accept_loopback: bool) -> bool {
    ||| server == crate::net::unspecified()
    ||| server == crate::net::broadcast_address()
    ||| server == crate::net::localhost() && !accept_loopback
}

/// The first sentinel of a server list, if it holds one.
pub open spec fn first_sentinel(servers: Seq<Ipv4Addr>, accept_loopback: bool) -> Option<Ipv4Addr>
    decreases servers.len(),
{
    if servers.len() == 0 {
        None
    } else if sentinel(servers[0], accept_loopback) {
        Some(servers[0])
    } else {
        first_sentinel(servers.skip(1), accept_loopback)
    }
}

/// Why a server list is refused, if it is.
pub open spec fn list_refusal(servers: Seq<Ipv4Addr>, accept_loopback: bool) -> Option<
    RetryConfigError,
> {
    if servers.len() == 0 {
        Some(RetryConfigError::NoServers)
    } else {
        match first_sentinel(servers, accept_loopback) {
            Some(server) => Some(RetryConfigError::InvalidServer(server)),
            None => None,
        }
    }
}

impl RetryState {
    /// A full budget: the first server, one send.
    pub open spec fn fresh(servers: Seq<Ipv4Addr>) -> RetryState {
        RetryState { servers, index: 0, sends: 1 }
    }

    pub open spec fn valid(self) -> bool {
        self.index < self.servers.len() && 1 <= self.sends <= MAX_LOGIN_SENDS_PER_SERVER
    }

    pub open spec fn current(self) -> Ipv4Addr {
        self.servers[self.index as int]
    }

    /// The state after a timeout.
    pub open spec fn after_timeout(self) -> RetryState {
        if self.sends < MAX_LOGIN_SENDS_PER_SERVER {
            RetryState { sends: self.sends + 1, ..self }
        } else if self.index + 1 < self.servers.len() {
            RetryState { index: self.index + 1, sends: 1, ..self }
        } else {
            RetryState::fresh(self.servers)
        }
    }

    /// What a timeout leads to.
    pub open spec fn timeout_outcome(self) -> LoginTimeout {
        if self.sends < MAX_LOGIN_SENDS_PER_SERVER {
            LoginTimeout::RetrySameServer(self.current())
        } else if self.index + 1 < self.servers.len() {
            LoginTimeout::SwitchServer(self.servers[self.index as int + 1])
        } else {
            LoginTimeout::AllServersExhausted
        }
    }

    /// How many more timeouts lead to another send.
    pub open spec fn remaining(self) -> int {
        MAX_LOGIN_SENDS_PER_SERVER * (self.servers.len() - self.index) - self.sends
    }

    /// The state after `n` timeouts.
    pub open spec fn after_timeouts(self, n: nat) -> RetryState
        decreases n,
    {
        if n == 0 {
            self
        } else {
            self.after_timeouts((n - 1) as nat).after_timeout()
        }
    }
}

impl View for LoginRetry {
    type V = RetryState;

    closed spec fn view(&self) -> RetryState {
        RetryState {
            servers: self.servers@,
            index: self.active_index as nat,
            sends: self.sends_on_active_server as nat,
        }
    }
}

impl LoginRetry {
    #[verifier::type_invariant]
    spec fn in_budget(self) -> bool {
        &&& self.active_index < self.servers@.len()
        &&& 1 <= self.sends_on_active_server <= MAX_LOGIN_SENDS_PER_SERVER
    }

    pub fn new(servers: Vec<Ipv4Addr>) -> (result: Result<Self, RetryConfigError>)
        ensures
            match result {
                Ok(retry) => list_refusal(servers@, false) is None && retry@ == RetryState::fresh(
                    servers@,
                ),
                Err(error) => list_refusal(servers@, false) == Some(error),
            },
    {
        Self::build(servers, false)
    }

    /// Like `new`, but `127.0.0.1` is a server too, so that a session can be tried out against a
    /// server on the same machine.
    pub fn new_accepting_loopback(servers: Vec<Ipv4Addr>) -> (result: Result<
        Self,
        RetryConfigError,
    >)
        ensures
            match result {
                Ok(retry) => list_refusal(servers@, true) is None && retry@ == RetryState::fresh(
                    servers@,
                ),
                Err(error) => list_refusal(servers@, true) == Some(error),
            },
    {
        Self::build(servers, true)
    }

    pub fn build(servers: Vec<Ipv4Addr>, accept_loopback: bool) -> (result: Result<
        Self,
        RetryConfigError,
    >)
        ensures
            match result {
                Ok(retry) => list_refusal(servers@, accept_loopback) is None && retry@
                    == RetryState::fresh(servers@),
                Err(error) => list_refusal(servers@, accept_loopback) == Some(error),
            },
    {
        if servers.len() == 0 {
            return Err(RetryConfigError::NoServers);
        }
        let mut i: usize = 0;
        assert(servers@.skip(0) =~= servers@);
        while i < servers.len()
            invariant
                servers@.len() > 0,
                i <= servers@.len(),
                first_sentinel(servers@, accept_loopback) == first_sentinel(
                    servers@.skip(i as int),
                    accept_loopback,
                ),
            decreases servers@.len() - i,
        {
            let server = servers[i];
            assert(servers@.skip(i as int)[0] == server);
            assert(servers@.skip(i as int).skip(1) =~= servers@.skip(i + 1));
            if server.is_unspecified() || server.is_broadcast() || (server
                == Ipv4Addr::localhost() && !accept_loopback) {
                return Err(RetryConfigError::InvalidServer(server));
            }
            i += 1;
        }
        Ok(Self { servers, active_index: 0, sends_on_active_server: 1 })
    }

    pub fn current_server(&self) -> (server: Ipv4Addr)
        ensures
            self@.valid(),
            server == self@.current(),
    {
        proof {
            use_type_invariant(self);
        }
        self.servers[self.active_index]
    }

    /// Takes one send from the budget. When every server has had its sends, the budget is full
    /// again.
    pub fn on_login_timeout(&mut self) -> (outcome: LoginTimeout)
        ensures
            old(self)@.valid(),
            final(self)@ == old(self)@.after_timeout(),
            outcome == old(self)@.timeout_outcome(),
    {
        proof {
            use_type_invariant(&*self);
        }
        if self.sends_on_active_server < MAX_LOGIN_SENDS_PER_SERVER {
            let sends: u8 = self.sends_on_active_server + 1;
            self.sends_on_active_server = sends;
            return LoginTimeout::RetrySameServer(self.current_server());
        }
        let count: usize = self.servers.len();
        if self.active_index >= count - 1 {
            self.active_index = 0;
            self.sends_on_active_server = 1;
            return LoginTimeout::AllServersExhausted;
        }
        let next: usize = self.active_index + 1;
        self.active_index = next;
        self.sends_on_active_server = 1;
        LoginTimeout::SwitchServer(self.current_server())
    }
}

/// Every state stays valid.
pub proof fn law_budget_stays_valid(state: RetryState)
    requires
        state.valid(),
    ensures
        state.after_timeout().valid(),
        state.after_timeout().servers == state.servers,
{
}

/// Each timeout that leads to another send takes one from what remains, and exhaustion comes
/// exactly when nothing remains; the budget is then full again.
pub proof fn law_each_timeout_takes_one(state: RetryState)
    requires
        state.valid(),
    ensures
        state.remaining() >= 0,
        state.timeout_outcome() is AllServersExhausted <==> state.remaining() == 0,
        !(state.timeout_outcome() is AllServersExhausted) ==> state.after_timeout().remaining()
            == state.remaining() - 1,
        state.timeout_outcome() is AllServersExhausted ==> state.after_timeout()
            == RetryState::fresh(state.servers),
{
    let n = state.servers.len() - state.index;
    assert(MAX_LOGIN_SENDS_PER_SERVER * n == 3 * n);
    assert(MAX_LOGIN_SENDS_PER_SERVER * (n - 1) == 3 * n - 3);
}

/// A full budget gives each server three sends in order: after `n` timeouts the server in use is
/// number `n / 3`, and the timeout after three sends to the last server exhausts the list.
pub proof fn law_three_sends_to_each_server(servers: Seq<Ipv4Addr>, n: nat)
    requires
        n < 3 * servers.len(),
    ensures
        RetryState::fresh(servers).after_timeouts(n).valid(),
        RetryState::fresh(servers).after_timeouts(n).current() == servers[n as int / 3],
        RetryState::fresh(servers).after_timeouts(n).timeout_outcome() is AllServersExhausted
            <==> n + 1 == 3 * servers.len(),
{
    lemma_after(servers, n);
}

proof fn lemma_after(servers: Seq<Ipv4Addr>, n: nat)
    requires
        n < 3 * servers.len(),
    ensures
        RetryState::fresh(servers).after_timeouts(n) == (RetryState {
            servers,
            index: n / 3,
            sends: n % 3 + 1,
        }),
    decreases n,
{
    if n > 0 {
        lemma_after(servers, (n - 1) as nat);
    }
}

/// What is no server: 0.0.0.0, 255.255.255.255, and 127.0.0.1 unless it is accepted. A list is
/// refused for the first of them, or for being empty, and for nothing else.
pub proof fn law_what_is_no_server(servers: Seq<Ipv4Addr>, accept_loopback: bool)
    ensures
        list_refusal(servers, accept_loopback) == Some(RetryConfigError::NoServers)
            <==> servers.len() == 0,
        list_refusal(servers, accept_loopback) is None <==> servers.len() > 0 && forall|i: int|
            0 <= i < servers.len() ==> !no_server(#[trigger] servers[i], accept_loopback),
        list_refusal(servers, accept_loopback) matches Some(RetryConfigError::InvalidServer(
            server,
        )) ==> exists|k: int|
            {
                &&& 0 <= k < servers.len()
                &&& #[trigger] servers[k] == server
                &&& no_server(server, accept_loopback)
                &&& forall|i: int|
                    0 <= i < k ==> !no_server(#[trigger] servers[i], accept_loopback)
            },
{
    lemma_first_sentinel(servers, accept_loopback);
}

/// Whether an address is one of the three that are no server.
pub open spec fn no_server(server: Ipv4Addr, accept_loopback: bool) -> bool {
    ||| server == Ipv4Addr { a: 0, b: 0, c: 0, d: 0 }
    ||| server == Ipv4Addr { a: 255, b: 255, c: 255, d: 255 }
    ||| !accept_loopback && server == Ipv4Addr { a: 127, b: 0, c: 0, d: 1 }
}

proof fn lemma_first_sentinel(servers: Seq<Ipv4Addr>, accept_loopback: bool)
    ensures
        first_sentinel(servers, accept_loopback) is None <==> forall|i: int|
            0 <= i < servers.len() ==> !no_server(#[trigger] servers[i], accept_loopback),
        first_sentinel(servers, accept_loopback) matches Some(server) ==> exists|k: int|
            {
                &&& 0 <= k < servers.len()
                &&& #[trigger] servers[k] == server
                &&& no_server(server, accept_loopback)
                &&& forall|i: int|
                    0 <= i < k ==> !no_server(#[trigger] servers[i], accept_loopback)
            },
    decreases servers.len(),
{
    if servers.len() > 0 {
        let head = servers[0];
        assert(sentinel(head, accept_loopback) == no_server(head, accept_loopback));
        if !sentinel(head, accept_loopback) {
            let rest = servers.skip(1);
            lemma_first_sentinel(rest, accept_loopback);
            assert forall|i: int| 1 <= i < servers.len() implies #[trigger] servers[i] == rest[i
                - 1] by {
            }
            if forall|i: int|
                0 <= i < rest.len() ==> !no_server(#[trigger] rest[i], accept_loopback) {
            } else {
                let bad = choose|i: int|
                    0 <= i < rest.len() && no_server(#[trigger] rest[i], accept_loopback);
                assert(no_server(servers[bad + 1], accept_loopback));
                let server = first_sentinel(rest, accept_loopback)->0;
                let k = choose|k: int|
                    {
                        &&& 0 <= k < rest.len()
                        &&& #[trigger] rest[k] == server
                        &&& forall|i: int|
                            0 <= i < k ==> !no_server(#[trigger] rest[i], accept_loopback)
                    };
                assert(servers[k + 1] == server);
            }
        }
    }
}

/// What a timeout leads to: up to the third send the same server again, then the next one, and
/// behind the last the end of the list; a server is named by its place in the list.
pub proof fn law_what_a_timeout_leads_to(state: RetryState)
    requires
        state.valid(),
    ensures
        state.sends < 3 ==> state.timeout_outcome() == LoginTimeout::RetrySameServer(
            state.servers[state.index as int],
        ) && state.after_timeout().index == state.index && state.after_timeout().sends
            == state.sends + 1,
        state.sends == 3 && state.index + 1 < state.servers.len() ==> state.timeout_outcome()
            == LoginTimeout::SwitchServer(state.servers[state.index as int + 1])
            && state.after_timeout().index == state.index + 1 && state.after_timeout().sends == 1,
        state.sends == 3 && state.index + 1 == state.servers.len() ==> state.timeout_outcome()
            is AllServersExhausted && state.after_timeout().index == 0
            && state.after_timeout().sends == 1,
        1 <= state.sends <= 3,
        state.after_timeout().servers == state.servers,
{
}

} // verus!
