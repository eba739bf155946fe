//! The host route to an authentication server.
//!
//! Before a host is authenticated the only thing it can reach is the authentication server. A
//! `/32` route through the gateway of the adapter keeps it reachable whatever else the routing
//! table holds. This module resolves that route, decides what is done about it, and renders the
//! `route` command line; reading and changing the table is left to the caller.

use vstd::prelude::*;

use crate::bytes;
use crate::net::{self, Ipv4Addr};
use crate::text;

verus! {

/// What the session may do to the routing table.
#[derive(Debug, Clone, Copy, PartialEq, Eq, Structural)]
pub enum RouteMode {
    /// Never touch the routing table.
    Off,
    /// Resolve the route and report it, but change nothing.
    DryRun,
    /// Install the host route before login and remove it after logout.
    Manage,
}

impl Default for RouteMode {
    fn default() -> (mode: Self)
        ensures
            mode == RouteMode::Off,
    {
        RouteMode::Off
    }
}

impl RouteMode {
    pub fn is_enabled(self) -> (enabled: bool)
        ensures
            enabled == !(self is Off),
    {
        !matches!(self, RouteMode::Off)
    }

    /// Whether a resolved plan may be applied.
    pub fn applies(self) -> (applies: bool)
        ensures
            applies == (self is Manage),
    {
        matches!(self, RouteMode::Manage)
    }
}

/// Which way a plan is rendered for the `route` command.
#[derive(Debug, Clone, Copy, PartialEq, Eq, Structural)]
pub enum RouteAction {
    Add,
    Delete,
}

/// The word of the `route` command for an action.
pub open spec fn verb_of(action: RouteAction) -> Seq<char> {
    match action {
        RouteAction::Add => "ADD"@,
        RouteAction::Delete => "DELETE"@,
    }
}

impl RouteAction {
    pub fn verb(self) -> (verb: &'static str)
        ensures
            verb@ == verb_of(self),
    {
        match self {
            RouteAction::Add => "ADD",
            RouteAction::Delete => "DELETE",
        }
    }
}

/// A resolved `/32` route for one authentication server.
#[derive(Debug, Clone, Copy, PartialEq, Eq, Structural)]
pub struct RoutePlan {
    pub server: Ipv4Addr,
    pub gateway: Ipv4Addr,
    pub interface_index: u32,
}

/// The arguments of the `route` command for a plan.
pub open spec fn route_arguments(plan: RoutePlan, action: RouteAction) -> Seq<Seq<char>> {
    seq![
        verb_of(action),
        net::ipv4_text(plan.server),
        "MASK"@,
        net::ipv4_text(net::broadcast_address()),
        net::ipv4_text(plan.gateway),
        "IF"@,
        text::decimal(plan.interface_index as nat),
    ]
}

impl RoutePlan {
    /// Arguments for the `route` command.
    pub fn arguments(&self, action: RouteAction) -> (arguments: Vec<String>)
        ensures
            text::string_views(arguments@) == route_arguments(*self, action),
    {
        let mut arguments: Vec<String> = Vec::new();
        arguments.push(action.verb().to_string());
        arguments.push(net::ipv4_string(self.server));
        arguments.push("MASK".to_string());
        arguments.push(net::ipv4_string(Ipv4Addr::broadcast()));
        arguments.push(net::ipv4_string(self.gateway));
        arguments.push("IF".to_string());
        arguments.push(text::decimal_text(self.interface_index as u64));
        assert(text::string_views(arguments@) =~= route_arguments(*self, action));
        arguments
    }

    /// The same arguments as one readable command.
    pub fn command_line(&self, action: RouteAction) -> (line: String)
        ensures
            line@ == "route "@ + text::joined(route_arguments(*self, action), " "@),
    {
        let mut line = "route ".to_string();
        line.append(&text::join(&self.arguments(action), " "));
        line
    }
}

#[derive(Debug, Clone, Copy, PartialEq, Eq, Structural)]
pub enum RouteError {
    /// No interface leads to the destination.
    NoInterface,
    /// The interface has no default route, so there is no gateway to use.
    NoGateway,
    /// Changing the table needs an elevated process.
    AccessDenied,
    /// The system call and the `route` command both refused.
    Refused(u32),
    /// Routing information is not available on this platform.
    Unsupported,
}

/// The name of a route error.
pub open spec fn error_name(error: RouteError) -> Seq<char> {
    match error {
        RouteError::NoInterface => "NoInterface"@,
        RouteError::NoGateway => "NoGateway"@,
        RouteError::AccessDenied => "AccessDenied"@,
        RouteError::Refused(code) => "Refused("@ + text::decimal(code as nat) + ")"@,
        RouteError::Unsupported => "Unsupported"@,
    }
}

impl RouteError {
    pub fn name(self) -> (name: String)
        ensures
            name@ == error_name(self),
    {
        match self {
            RouteError::NoInterface => "NoInterface".to_string(),
            RouteError::NoGateway => "NoGateway".to_string(),
            RouteError::AccessDenied => "AccessDenied".to_string(),
            RouteError::Refused(code) => {
                let mut name = "Refused(".to_string();
                name.append(&text::decimal_text(code as u64));
                name.append(")");
                name
            },
            RouteError::Unsupported => "Unsupported".to_string(),
        }
    }
}

/// The order in which a machine keeps the bytes of a number in memory.
#[derive(Debug, Clone, Copy, PartialEq, Eq, Structural)]
pub enum ByteOrder {
    Little,
    Big,
}

/// The bytes of `value` as a machine keeps them in memory.
pub open spec fn memory_bytes(value: u32, order: ByteOrder) -> Seq<u8> {
    match order {
        ByteOrder::Little => bytes::le32(value),
        ByteOrder::Big => bytes::le32(value).reverse(),
    }
}

/// The number whose bytes in memory are the bytes of the address: the form in which a
/// forwarding table keeps addresses.
pub fn to_network_order(address: Ipv4Addr, order: ByteOrder) -> (value: u32)
    ensures
        memory_bytes(value, order) == address.bytes(),
{
    match order {
        ByteOrder::Little => {
            let value: u32 = bytes::word32_of(address.a, address.b, address.c, address.d);
            proof {
                bytes::lemma_word32_roundtrip(address.a, address.b, address.c, address.d);
            }
            value
        },
        ByteOrder::Big => {
            let value: u32 = bytes::word32_of(address.d, address.c, address.b, address.a);
            proof {
                bytes::lemma_word32_roundtrip(address.d, address.c, address.b, address.a);
                assert(bytes::le32(value).reverse() =~= address.bytes());
            }
            value
        },
    }
}

/// The address whose bytes a number has in memory.
pub fn from_network_order(value: u32, order: ByteOrder) -> (address: Ipv4Addr)
    ensures
        address.bytes() == memory_bytes(value, order),
{
    let b = bytes::le32_bytes(value);
    match order {
        ByteOrder::Little => {
            let address = Ipv4Addr::new(b[0], b[1], b[2], b[3]);
            assert(address.bytes() =~= memory_bytes(value, order));
            address
        },
        ByteOrder::Big => {
            let address = Ipv4Addr::new(b[3], b[2], b[1], b[0]);
            assert(address.bytes() =~= memory_bytes(value, order));
            address
        },
    }
}

/// Both conversions keep the bytes, so on a machine of either order each undoes the other.
pub proof fn law_network_order_is_unambiguous(one: u32, other: u32, order: ByteOrder)
    requires
        memory_bytes(one, order) == memory_bytes(other, order),
    ensures
        one == other,
{
    bytes::lemma_le32_roundtrip(one);
    bytes::lemma_le32_roundtrip(other);
    assert(bytes::le32(one).reverse().reverse() =~= bytes::le32(one));
    assert(bytes::le32(other).reverse().reverse() =~= bytes::le32(other));
}

/// Two addresses with the same bytes are the same address.
pub proof fn law_bytes_identify_the_address(one: Ipv4Addr, other: Ipv4Addr)
    requires
        one.bytes() == other.bytes(),
    ensures
        one == other,
{
    assert(one.bytes()[0] == other.bytes()[0]);
    assert(one.bytes()[1] == other.bytes()[1]);
    assert(one.bytes()[2] == other.bytes()[2]);
    assert(one.bytes()[3] == other.bytes()[3]);
}

/// One row of the forwarding table. Addresses are numbers whose bytes in memory are those of
/// the address.
#[derive(Debug, Clone, Copy, PartialEq, Eq, Structural)]
pub struct ForwardRow {
    pub destination: u32,
    pub mask: u32,
    pub next_hop: u32,
    pub interface_index: u32,
    pub metric: u32,
}

/// The metric of a route that the `route` command adds.
pub const DEFAULT_METRIC: u32 = 1;

/// Whether a row is a usable default route on an interface.
pub open spec fn default_route(row: ForwardRow, interface_index: u32) -> bool {
    &&& row.destination == 0
    &&& row.mask == 0
    &&& row.interface_index == interface_index
    &&& row.next_hop != 0
}

/// Of the first `n` rows, the default route on an interface with the lowest metric, the first of
/// several.
pub open spec fn best_default(rows: Seq<ForwardRow>, interface_index: u32, n: nat) -> Option<
    ForwardRow,
>
    decreases n,
{
    if n == 0 {
        None
    } else {
        let before = best_default(rows, interface_index, (n - 1) as nat);
        let row = rows[n - 1];
        if !default_route(row, interface_index) {
            before
        } else {
            match before {
                Some(best) => if row.metric < best.metric {
                    Some(row)
                } else {
                    before
                },
                None => Some(row),
            }
        }
    }
}

/// Whether a row is the `/32` route of a server.
pub open spec fn host_route(row: ForwardRow, server: Ipv4Addr, order: ByteOrder) -> bool {
    &&& memory_bytes(row.destination, order) == server.bytes()
    &&& memory_bytes(row.mask, order) == net::broadcast_address().bytes()
}

/// The first `/32` route of a server among rows.
pub open spec fn first_host_route(
    rows: Seq<ForwardRow>,
    server: Ipv4Addr,
    order: ByteOrder,
) -> Option<ForwardRow>
    decreases rows.len(),
{
    if rows.len() == 0 {
        None
    } else if host_route(rows[0], server, order) {
        Some(rows[0])
    } else {
        first_host_route(rows.skip(1), server, order)
    }
}

/// Next hop of the default route on an interface; the lowest metric wins, then the first row.
pub fn gateway_for_interface(rows: &[ForwardRow], interface_index: u32, order: ByteOrder) -> (
gateway: Option<Ipv4Addr>)
    ensures
        match gateway {
            Some(address) => best_default(rows@, interface_index, rows@.len()) matches Some(row)
                && address.bytes() == memory_bytes(row.next_hop, order),
            None => best_default(rows@, interface_index, rows@.len()) is None,
        },
{
    let mut best: Option<ForwardRow> = None;
    let mut i: usize = 0;
    while i < rows.len()
        invariant
            i <= rows@.len(),
            best == best_default(rows@, interface_index, i as nat),
        decreases rows@.len() - i,
    {
        let row = rows[i];
        if row.destination == 0 && row.mask == 0 && row.interface_index == interface_index
            && row.next_hop != 0 {
            match best {
                Some(found) => {
                    if row.metric < found.metric {
                        best = Some(row);
                    }
                },
                None => {
                    best = Some(row);
                },
            }
        }
        i += 1;
    }
    match best {
        Some(row) => Some(from_network_order(row.next_hop, order)),
        None => None,
    }
}

/// The `/32` route that the table already holds for a server.
pub fn existing_host_route(rows: &[ForwardRow], server: Ipv4Addr, order: ByteOrder) -> (found:
    Option<RoutePlan>)
    ensures
        match found {
            Some(plan) => {
                &&& first_host_route(rows@, server, order) matches Some(row)
                &&& plan.server == server
                &&& plan.gateway.bytes() == memory_bytes(row.next_hop, order)
                &&& plan.interface_index == row.interface_index
            },
            None => first_host_route(rows@, server, order) is None,
        },
{
    let destination: u32 = to_network_order(server, order);
    let mask: u32 = to_network_order(Ipv4Addr::broadcast(), order);
    let mut i: usize = 0;
    assert(rows@.skip(0) =~= rows@);
    while i < rows.len()
        invariant
            i <= rows@.len(),
            memory_bytes(destination, order) == server.bytes(),
            memory_bytes(mask, order) == net::broadcast_address().bytes(),
            first_host_route(rows@, server, order) == first_host_route(
                rows@.skip(i as int),
                server,
                order,
            ),
        decreases rows@.len() - i,
    {
        let row = rows[i];
        proof {
            assert(rows@.skip(i as int)[0] == row);
            assert(rows@.skip(i as int).skip(1) =~= rows@.skip(i + 1));
            if memory_bytes(row.destination, order) == server.bytes() {
                law_network_order_is_unambiguous(row.destination, destination, order);
            }
            if memory_bytes(row.mask, order) == net::broadcast_address().bytes() {
                law_network_order_is_unambiguous(row.mask, mask, order);
            }
        }
        if row.destination == destination && row.mask == mask {
            return Some(
                RoutePlan {
                    server,
                    gateway: from_network_order(row.next_hop, order),
                    interface_index: row.interface_index,
                },
            );
        }
        i += 1;
    }
    None
}

/// The row that installs a plan.
pub fn host_row(plan: &RoutePlan, order: ByteOrder) -> (row: ForwardRow)
    ensures
        host_route(row, plan.server, order),
        memory_bytes(row.next_hop, order) == plan.gateway.bytes(),
        row.interface_index == plan.interface_index,
        row.metric == DEFAULT_METRIC,
{
    ForwardRow {
        destination: to_network_order(plan.server, order),
        mask: to_network_order(Ipv4Addr::broadcast(), order),
        next_hop: to_network_order(plan.gateway, order),
        interface_index: plan.interface_index,
        metric: DEFAULT_METRIC,
    }
}

/// The plan for a server, given the interface that leads to it and the gateway of that
/// interface.
pub open spec fn resolved(
    server: Ipv4Addr,
    interface_index: Option<u32>,
    gateway: Option<Ipv4Addr>,
) -> Result<RoutePlan, RouteError> {
    match interface_index {
        None => Err(RouteError::NoInterface),
        Some(interface_index) => match gateway {
            None => Err(RouteError::NoGateway),
            Some(gateway) => Ok(RoutePlan { server, gateway, interface_index }),
        },
    }
}

/// Resolves the route for a server. The gateway counts only where an interface leads there.
pub fn plan(server: Ipv4Addr, interface_index: Option<u32>, gateway: Option<Ipv4Addr>) -> (result:
    Result<RoutePlan, RouteError>)
    ensures
        result == resolved(server, interface_index, gateway),
{
    match interface_index {
        None => Err(RouteError::NoInterface),
        Some(interface_index) => match gateway {
            None => Err(RouteError::NoGateway),
            Some(gateway) => Ok(RoutePlan { server, gateway, interface_index }),
        },
    }
}

/// The status of a system call that succeeded.
pub const NO_ERROR: u32 = 0;

/// The status of a system call that needs an elevated process.
pub const ERROR_ACCESS_DENIED: u32 = 5;

/// What the `route` command came to.
#[derive(Debug, Clone, Copy, PartialEq, Eq, Structural)]
pub enum CommandResult {
    NotStarted,
    Succeeded,
    /// The exit code, where there is one.
    Failed(Option<i32>),
}

/// What a change of the table came to. The system call goes first; unless it succeeds or is
/// denied, the `route` command decides, and a refusal by both carries the status of the call.
pub open spec fn applied_result(status: u32, command: CommandResult) -> Result<(), RouteError> {
    if status == NO_ERROR {
        Ok(())
    } else if status == ERROR_ACCESS_DENIED {
        Err(RouteError::AccessDenied)
    } else {
        match command {
            CommandResult::NotStarted => Err(RouteError::NoInterface),
            CommandResult::Succeeded => Ok(()),
            CommandResult::Failed(code) => if code == Some(5i32) {
                Err(RouteError::AccessDenied)
            } else {
                Err(RouteError::Refused(status))
            },
        }
    }
}

/// Whether the `route` command has to be tried after the system call.
pub fn needs_command(status: u32) -> (needed: bool)
    ensures
        needed == (status != NO_ERROR && status != ERROR_ACCESS_DENIED),
        !needed ==> forall|one: CommandResult, other: CommandResult|
            applied_result(status, one) == applied_result(status, other),
{
    status != NO_ERROR && status != ERROR_ACCESS_DENIED
}

/// What a change of the table came to.
pub fn apply_result(status: u32, command: CommandResult) -> (result: Result<(), RouteError>)
    ensures
        result == applied_result(status, command),
{
    if status == NO_ERROR {
        return Ok(());
    }
    if status == ERROR_ACCESS_DENIED {
        return Err(RouteError::AccessDenied);
    }
    match command {
        CommandResult::NotStarted => Err(RouteError::NoInterface),
        CommandResult::Succeeded => Ok(()),
        CommandResult::Failed(code) => {
            if code == Some(5) {
                Err(RouteError::AccessDenied)
            } else {
                Err(RouteError::Refused(status))
            }
        },
    }
}

/// A plan that was installed, so that it can be removed again.
#[derive(Debug, Clone, Copy, PartialEq, Eq, Structural)]
pub struct InstalledRoute {
    pub plan: RoutePlan,
}

/// What one pass over the servers came to.
#[derive(Debug, Clone, PartialEq, Eq)]
pub struct RouteOutcome {
    /// Routes this pass installed, in the order it installed them.
    pub installed: Vec<InstalledRoute>,
    /// How many servers already had a `/32` route.
    pub already_present: usize,
    /// Servers that could not be given a route, with the reason.
    pub failed: Vec<(Ipv4Addr, RouteError)>,
}

impl Default for RouteOutcome {
    fn default() -> (outcome: Self)
        ensures
            outcome.installed@ == Seq::<InstalledRoute>::empty(),
            outcome.already_present == 0,
            outcome.failed@ == Seq::<(Ipv4Addr, RouteError)>::empty(),
    {
        RouteOutcome { installed: Vec::new(), already_present: 0, failed: Vec::new() }
    }
}

/// The mathematical content of a `RouteOutcome`.
pub struct OutcomeView {
    pub installed: Seq<InstalledRoute>,
    pub already_present: nat,
    pub failed: Seq<(Ipv4Addr, RouteError)>,
}

impl View for RouteOutcome {
    type V = OutcomeView;

    open spec fn view(&self) -> OutcomeView {
        OutcomeView {
            installed: self.installed@,
            already_present: self.already_present as nat,
            failed: self.failed@,
        }
    }
}

impl OutcomeView {
    pub open spec fn nothing() -> OutcomeView {
        OutcomeView { installed: Seq::empty(), already_present: 0, failed: Seq::empty() }
    }

    /// How many servers the outcome accounts for.
    pub open spec fn accounted(self) -> nat {
        self.installed.len() + self.already_present + self.failed.len()
    }

    /// Every one of `requested` servers is routable.
    pub open spec fn satisfied(self, requested: nat) -> bool {
        self.failed.len() == 0 && self.installed.len() + self.already_present == requested
    }
}

impl RouteOutcome {
    /// Whether every server ended up routable, by this pass or before it.
    pub fn is_satisfied(&self, requested: usize) -> (satisfied: bool)
        ensures
            satisfied == self@.satisfied(requested as nat),
    {
        if self.failed.len() != 0 {
            return false;
        }
        let installed: usize = self.installed.len();
        installed <= requested && self.already_present == requested - installed
    }
}

/// What a pass reports of one server.
#[derive(Debug, Clone, Copy, PartialEq, Eq)]
pub struct RouteReport {
    pub plan: RoutePlan,
    pub action: RouteAction,
    pub result: Result<(), RouteError>,
}

/// What a pass asks its caller to do next.
#[derive(Debug, Clone, Copy, PartialEq, Eq, Structural)]
pub enum RouteRequest {
    /// Look the route to this server up, then answer with `resolve`.
    Resolve(Ipv4Addr),
    /// Add this route, then answer with `applied`.
    Apply(RoutePlan),
    Done,
}

/// A pass that gives every server its host route, one server after the other.
#[derive(Debug)]
pub struct RouteInstaller {
    pub servers: Vec<Ipv4Addr>,
    pub mode: RouteMode,
    pub index: usize,
    pub pending: Option<RoutePlan>,
    pub outcome: RouteOutcome,
    pub reports: Vec<RouteReport>,
}

/// The mathematical content of a `RouteInstaller`.
pub struct InstallerView {
    pub servers: Seq<Ipv4Addr>,
    pub mode: RouteMode,
    pub index: nat,
    pub pending: Option<RoutePlan>,
    pub outcome: OutcomeView,
    pub reports: Seq<RouteReport>,
}

impl View for RouteInstaller {
    type V = InstallerView;

    open spec fn view(&self) -> InstallerView {
        InstallerView {
            servers: self.servers@,
            mode: self.mode,
            index: self.index as nat,
            pending: self.pending,
            outcome: self.outcome@,
            reports: self.reports@,
        }
    }
}

impl InstallerView {
    /// The pass before its first server.
    pub open spec fn start(servers: Seq<Ipv4Addr>, mode: RouteMode) -> InstallerView {
        InstallerView {
            servers,
            mode,
            index: 0,
            pending: None,
            outcome: OutcomeView::nothing(),
            reports: Seq::empty(),
        }
    }

    /// The next thing to do. A pass that may not even look does nothing.
    pub open spec fn request(self) -> RouteRequest {
        if self.mode is Off || self.index >= self.servers.len() {
            RouteRequest::Done
        } else {
            match self.pending {
                Some(plan) => RouteRequest::Apply(plan),
                None => RouteRequest::Resolve(self.servers[self.index as int]),
            }
        }
    }

    /// The pass after the route to the next server was looked up. A server without a route, one
    /// that has its host route already, and every server of a dry run are settled by this.
    pub open spec fn after_lookup(
        self,
        interface_index: Option<u32>,
        gateway: Option<Ipv4Addr>,
        present: bool,
    ) -> InstallerView {
        match self.request() {
            RouteRequest::Resolve(server) => match resolved(server, interface_index, gateway) {
                Err(error) => InstallerView {
                    index: self.index + 1,
                    outcome: OutcomeView {
                        failed: self.outcome.failed.push((server, error)),
                        ..self.outcome
                    },
                    ..self
                },
                Ok(plan) => {
                    let report = RouteReport { plan, action: RouteAction::Add, result: Ok(()) };
                    if present {
                        InstallerView {
                            index: self.index + 1,
                            outcome: OutcomeView {
                                already_present: self.outcome.already_present + 1,
                                ..self.outcome
                            },
                            reports: self.reports.push(report),
                            ..self
                        }
                    } else if self.mode is DryRun {
                        InstallerView {
                            index: self.index + 1,
                            reports: self.reports.push(report),
                            ..self
                        }
                    } else {
                        InstallerView { pending: Some(plan), ..self }
                    }
                },
            },
            _ => self,
        }
    }

    /// The pass after the pending route was added or refused.
    pub open spec fn after_apply(self, result: Result<(), RouteError>) -> InstallerView {
        match self.request() {
            RouteRequest::Apply(plan) => InstallerView {
                index: self.index + 1,
                pending: None,
                reports: self.reports.push(RouteReport { plan, action: RouteAction::Add, result }),
                outcome: match result {
                    Ok(()) => OutcomeView {
                        installed: self.outcome.installed.push(InstalledRoute { plan }),
                        ..self.outcome
                    },
                    Err(error) => OutcomeView {
                        failed: self.outcome.failed.push(
                            (self.servers[self.index as int], error),
                        ),
                        ..self.outcome
                    },
                },
                ..self
            },
            _ => self,
        }
    }

    /// What holds of every pass: nothing is counted twice, a pass that may not change the table
    /// installs nothing, and one that may accounts for every server behind it.
    pub open spec fn valid(self) -> bool {
        &&& self.index <= self.servers.len()
        &&& self.outcome.accounted() <= self.index
        &&& self.mode is Manage ==> self.outcome.accounted() == self.index
        &&& !(self.mode is Manage) ==> self.outcome.installed.len() == 0 && self.pending is None
        &&& self.pending matches Some(plan) ==> self.index < self.servers.len() && plan.server
            == self.servers[self.index as int]
        &&& self.mode is Off ==> self.index == 0 && self.reports.len() == 0
    }
}

/// Starts a pass over the servers.
pub fn install_for(servers: Vec<Ipv4Addr>, mode: RouteMode) -> (installer: RouteInstaller)
    ensures
        installer@ == InstallerView::start(servers@, mode),
        installer@.valid(),
{
    let installer = RouteInstaller {
        servers,
        mode,
        index: 0,
        pending: None,
        outcome: RouteOutcome::default(),
        reports: Vec::new(),
    };
    assert(installer@.outcome.failed =~= OutcomeView::nothing().failed);
    assert(installer@.outcome.installed =~= OutcomeView::nothing().installed);
    installer
}

impl RouteInstaller {
    /// What to do next.
    pub fn request(&self) -> (request: RouteRequest)
        ensures
            request == self@.request(),
    {
        if matches!(self.mode, RouteMode::Off) || self.index >= self.servers.len() {
            return RouteRequest::Done;
        }
        match self.pending {
            Some(plan) => RouteRequest::Apply(plan),
            None => RouteRequest::Resolve(self.servers[self.index]),
        }
    }

    /// Takes in what was found out about the server that `request` named.
    pub fn resolve(
        &mut self,
        interface_index: Option<u32>,
        gateway: Option<Ipv4Addr>,
        present: bool,
    )
        requires
            old(self)@.valid(),
        ensures
            final(self)@ == old(self)@.after_lookup(interface_index, gateway, present),
            final(self)@.valid(),
    {
        let count: usize = self.servers.len();
        if let RouteRequest::Resolve(server) = self.request() {
            assert(self.index < count);
            assert(self.outcome.already_present < count);
            match plan(server, interface_index, gateway) {
                Err(error) => {
                    self.outcome.failed.push((server, error));
                    self.index = self.index + 1;
                },
                Ok(plan) => {
                    let report = RouteReport { plan, action: RouteAction::Add, result: Ok(()) };
                    if present {
                        self.outcome.already_present = self.outcome.already_present + 1;
                        self.reports.push(report);
                        self.index = self.index + 1;
                    } else if !self.mode.applies() {
                        self.reports.push(report);
                        self.index = self.index + 1;
                    } else {
                        self.pending = Some(plan);
                    }
                },
            }
        }
    }

    /// Takes in what came of the route that `request` asked to add.
    pub fn applied(&mut self, result: Result<(), RouteError>)
        requires
            old(self)@.valid(),
        ensures
            final(self)@ == old(self)@.after_apply(result),
            final(self)@.valid(),
    {
        let count: usize = self.servers.len();
        if let RouteRequest::Apply(plan) = self.request() {
            assert(self.index < count);
            self.reports.push(RouteReport { plan, action: RouteAction::Add, result });
            match result {
                Ok(()) => {
                    self.outcome.installed.push(InstalledRoute { plan });
                },
                Err(error) => {
                    let server = self.servers[self.index];
                    self.outcome.failed.push((server, error));
                },
            }
            self.pending = None;
            self.index = self.index + 1;
        }
    }
}

/// A pass that is off asks for nothing and comes to nothing.
pub proof fn law_off_never_touches_the_table(servers: Seq<Ipv4Addr>)
    ensures
        InstallerView::start(servers, RouteMode::Off).request() == RouteRequest::Done,
        InstallerView::start(servers, RouteMode::Off).outcome == OutcomeView::nothing(),
{
}

/// Only a pass that manages the table asks to change it, and it asks for routes to its own
/// servers only.
pub proof fn law_only_managing_changes_the_table(pass: InstallerView, plan: RoutePlan)
    requires
        pass.valid(),
        pass.request() == RouteRequest::Apply(plan),
    ensures
        pass.mode is Manage,
        pass.servers.contains(plan.server),
{
    assert(pass.servers[pass.index as int] == plan.server);
}

/// What a pass records as installed is what it asked to add and was told had been added, in that
/// order; a server that had its route already, or was refused, adds nothing to be removed later.
pub proof fn law_installed_is_exactly_what_was_added(
    pass: InstallerView,
    interface_index: Option<u32>,
    gateway: Option<Ipv4Addr>,
    present: bool,
    result: Result<(), RouteError>,
)
    ensures
        pass.after_lookup(interface_index, gateway, present).outcome.installed
            == pass.outcome.installed,
        pass.after_apply(result).outcome.installed == (match (pass.request(), result) {
            (RouteRequest::Apply(plan), Ok(())) => pass.outcome.installed.push(
                InstalledRoute { plan },
            ),
            _ => pass.outcome.installed,
        }),
{
}

/// A finished pass that manages the table is satisfied exactly when no server failed.
pub proof fn law_a_finished_pass_is_satisfied_unless_a_server_failed(pass: InstallerView)
    requires
        pass.valid(),
        pass.mode is Manage,
        pass.request() == RouteRequest::Done,
    ensures
        pass.outcome.satisfied(pass.servers.len()) <==> pass.outcome.failed.len() == 0,
{
}

/// Each answer to a request brings the pass closer to its end: a server is settled, or the route
/// to it stands resolved.
pub proof fn law_a_pass_ends(
    pass: InstallerView,
    interface_index: Option<u32>,
    gateway: Option<Ipv4Addr>,
    present: bool,
    result: Result<(), RouteError>,
)
    requires
        pass.valid(),
    ensures
        pass.request() is Resolve ==> ({
            let next = pass.after_lookup(interface_index, gateway, present);
            next.index == pass.index + 1 || (next.index == pass.index && next.pending is Some)
        }),
        pass.request() is Apply ==> pass.after_apply(result).index == pass.index + 1,
{
}

/// The mask in a rendered plan is always that of a single address.
pub proof fn law_the_mask_covers_one_address(plan: RoutePlan, action: RouteAction)
    ensures
        route_arguments(plan, action)[2] == "MASK"@,
        route_arguments(plan, action)[3] == net::ipv4_text(net::broadcast_address()),
        route_arguments(plan, RouteAction::Add).skip(1) == route_arguments(
            plan,
            RouteAction::Delete,
        ).skip(1),
{
    assert(route_arguments(plan, RouteAction::Add).skip(1) =~= route_arguments(
        plan,
        RouteAction::Delete,
    ).skip(1));
}

/// What the lookup of a server comes to, in each of its four outcomes. Without an interface, or
/// without a gateway on it, exactly this server joins the failed ones with the reason, and nothing
/// counts as present. A server counts as present only where its host route was found. Without one a
/// dry run only reports, and a pass that manages the table asks for the route next.
pub proof fn law_what_a_lookup_comes_to(
    pass: InstallerView,
    interface_index: Option<u32>,
    gateway: Option<Ipv4Addr>,
    present: bool,
)
    requires
        pass.request() is Resolve,
    ensures
        ({
            let server = pass.servers[pass.index as int];
            let next = pass.after_lookup(interface_index, gateway, present);
            let routable = interface_index is Some && gateway is Some;
            let plan = RoutePlan {
                server,
                gateway: gateway->0,
                interface_index: interface_index->0,
            };
            &&& pass.request() == RouteRequest::Resolve(server)
            &&& next.servers == pass.servers && next.mode == pass.mode
            &&& next.outcome.installed == pass.outcome.installed
            &&& interface_index is None ==> next.outcome.failed == pass.outcome.failed.push(
                (server, RouteError::NoInterface),
            )
            &&& interface_index is Some && gateway is None ==> next.outcome.failed
                == pass.outcome.failed.push((server, RouteError::NoGateway))
            &&& routable ==> next.outcome.failed == pass.outcome.failed
            &&& next.outcome.already_present == pass.outcome.already_present + (if routable
                && present {
                1int
            } else {
                0
            })
            &&& !routable ==> next.reports == pass.reports && next.pending is None && next.index
                == pass.index + 1
            &&& routable && (present || pass.mode is DryRun) ==> next.pending is None && next.index
                == pass.index + 1 && next.reports == pass.reports.push(
                RouteReport { plan, action: RouteAction::Add, result: Ok(()) },
            )
            &&& routable && !present && pass.mode is Manage ==> next.index == pass.index
                && next.reports == pass.reports && next.request() == RouteRequest::Apply(plan)
        }),
{
}

/// What adding a route comes to: a route that was added is remembered for its removal, one that was
/// refused has its server join the failed ones with the reason; either is reported, and the pass
/// goes on with the next server.
pub proof fn law_what_adding_comes_to(pass: InstallerView, result: Result<(), RouteError>)
    requires
        pass.request() is Apply,
    ensures
        ({
            let plan = pass.pending->0;
            let next = pass.after_apply(result);
            &&& pass.request() == RouteRequest::Apply(plan)
            &&& next.index == pass.index + 1
            &&& next.pending is None
            &&& next.servers == pass.servers && next.mode == pass.mode
            &&& next.outcome.already_present == pass.outcome.already_present
            &&& next.reports == pass.reports.push(
                RouteReport { plan, action: RouteAction::Add, result },
            )
            &&& result is Ok ==> next.outcome.failed == pass.outcome.failed
                && next.outcome.installed == pass.outcome.installed.push(InstalledRoute { plan })
            &&& result matches Err(error) ==> next.outcome.installed == pass.outcome.installed
                && next.outcome.failed == pass.outcome.failed.push(
                (pass.servers[pass.index as int], error),
            )
        }),
{
}

/// The servers are asked for one by one, in their order, and the pass is done behind the last.
pub proof fn law_every_server_is_asked_for(pass: InstallerView)
    requires
        !(pass.mode is Off),
        pass.pending is None,
    ensures
        pass.index < pass.servers.len() ==> pass.request() == RouteRequest::Resolve(
            pass.servers[pass.index as int],
        ),
        pass.index >= pass.servers.len() ==> pass.request() == RouteRequest::Done,
        InstallerView::start(pass.servers, pass.mode).index == 0,
        InstallerView::start(pass.servers, pass.mode).pending is None,
        InstallerView::start(pass.servers, pass.mode).outcome.installed.len() == 0,
        InstallerView::start(pass.servers, pass.mode).outcome.failed.len() == 0,
        InstallerView::start(pass.servers, pass.mode).outcome.already_present == 0,
{
}

/// A pass satisfies its servers exactly where none failed and each was installed or present.
pub proof fn law_satisfaction(outcome: OutcomeView, requested: nat)
    ensures
        outcome.satisfied(requested) <==> outcome.failed.len() == 0 && outcome.installed.len()
            + outcome.already_present == requested,
{
}

/// What a change of the table came to, from the status of the call and the command behind it: status
/// 0 succeeds and status 5 is denied, whatever the command; otherwise the command decides.
pub proof fn law_what_a_change_comes_to(status: u32, command: CommandResult)
    ensures
        status == 0 ==> applied_result(status, command) == Ok::<(), RouteError>(()),
        status == 5 ==> applied_result(status, command) == Err::<(), RouteError>(
            RouteError::AccessDenied,
        ),
        status != 0 && status != 5 ==> match command {
            CommandResult::Succeeded => applied_result(status, command) is Ok,
            CommandResult::NotStarted => applied_result(status, command) == Err::<(), RouteError>(
                RouteError::NoInterface,
            ),
            CommandResult::Failed(code) => applied_result(status, command) == Err::<(), RouteError>(
                if code == Some(5i32) {
                    RouteError::AccessDenied
                } else {
                    RouteError::Refused(status)
                },
            ),
        },
{
}

/// The gateway of an interface is that of its default route with the lowest metric, of several the
/// first: every other default route on the interface costs at least as much, and those before it
/// cost more. There is none exactly where no row is such a route: destination and mask zero, this
/// interface, a next hop.
pub proof fn law_the_cheapest_default_route_wins(
    rows: Seq<ForwardRow>,
    interface_index: u32,
    n: nat,
)
    requires
        n <= rows.len(),
    ensures
        match best_default(rows, interface_index, n) {
            Some(best) => exists|k: int|
                {
                    &&& 0 <= k < n
                    &&& #[trigger] rows[k] == best
                    &&& best.destination == 0 && best.mask == 0 && best.next_hop != 0
                    &&& best.interface_index == interface_index
                    &&& forall|j: int|
                        0 <= j < n && (#[trigger] rows[j]).destination == 0 && rows[j].mask == 0
                            && rows[j].next_hop != 0 && rows[j].interface_index == interface_index
                            ==> best.metric <= rows[j].metric && (j < k ==> best.metric
                            < rows[j].metric)
                },
            None => forall|j: int|
                0 <= j < n ==> !((#[trigger] rows[j]).destination == 0 && rows[j].mask == 0
                    && rows[j].next_hop != 0 && rows[j].interface_index == interface_index),
        },
    decreases n,
{
    if n > 0 {
        law_the_cheapest_default_route_wins(rows, interface_index, (n - 1) as nat);
        let row = rows[n - 1];
        assert(rows[n - 1] == row);
    }
}

/// The host route of a server is the first row whose destination has the server's bytes and whose
/// mask is all ones; there is none exactly where no row is such a route.
pub proof fn law_the_first_host_route_counts(
    rows: Seq<ForwardRow>,
    server: Ipv4Addr,
    order: ByteOrder,
)
    ensures
        match first_host_route(rows, server, order) {
            Some(found) => exists|k: int|
                {
                    &&& 0 <= k < rows.len()
                    &&& #[trigger] rows[k] == found
                    &&& memory_bytes(found.destination, order) == seq![
                        server.a,
                        server.b,
                        server.c,
                        server.d,
                    ]
                    &&& found.mask == 0xffff_ffff
                    &&& forall|j: int|
                        0 <= j < k ==> !(memory_bytes((#[trigger] rows[j]).destination, order)
                            == seq![server.a, server.b, server.c, server.d] && rows[j].mask
                            == 0xffff_ffff)
                },
            None => forall|j: int|
                0 <= j < rows.len() ==> !(memory_bytes((#[trigger] rows[j]).destination, order)
                    == seq![server.a, server.b, server.c, server.d] && rows[j].mask
                    == 0xffff_ffff),
        },
    decreases rows.len(),
{
    if rows.len() > 0 {
        let row = rows[0];
        lemma_all_ones(row.mask, order);
        assert(server.bytes() =~= seq![server.a, server.b, server.c, server.d]);
        if host_route(row, server, order) {
            assert(rows[0] == row);
        } else {
            let rest = rows.skip(1);
            law_the_first_host_route_counts(rest, server, order);
            assert forall|j: int| 1 <= j < rows.len() implies #[trigger] rows[j] == rest[j - 1] by {
            }
            match first_host_route(rest, server, order) {
                Some(found) => {
                    let k = choose|k: int|
                        {
                            &&& 0 <= k < rest.len()
                            &&& #[trigger] rest[k] == found
                            &&& forall|j: int|
                                0 <= j < k ==> !(memory_bytes(
                                    (#[trigger] rest[j]).destination,
                                    order,
                                ) == seq![server.a, server.b, server.c, server.d] && rest[j].mask
                                    == 0xffff_ffff)
                        };
                    assert(rows[k + 1] == found);
                },
                None => {},
            }
        }
    }
}

proof fn lemma_all_ones(mask: u32, order: ByteOrder)
    ensures
        memory_bytes(mask, order) == net::broadcast_address().bytes() <==> mask == 0xffff_ffff,
{
    let ones = net::broadcast_address().bytes();
    assert(ones =~= seq![255u8, 255u8, 255u8, 255u8]);
    assert(ones.reverse() =~= ones);
    bytes::lemma_word32_roundtrip(255, 255, 255, 255);
    assert(bytes::word32(255, 255, 255, 255) == 0xffff_ffff);
    assert(memory_bytes(0xffff_ffff, order) =~= ones);
    if memory_bytes(mask, order) == ones {
        law_network_order_is_unambiguous(mask, 0xffff_ffff, order);
    }
}

/// The `route` command for a plan, word by word.
pub proof fn law_the_words_of_the_route_command(plan: RoutePlan, action: RouteAction)
    ensures
        ({
            let words = route_arguments(plan, action);
            &&& words.len() == 7
            &&& action is Add ==> words[0] == "ADD"@
            &&& action is Delete ==> words[0] == "DELETE"@
            &&& words[1] == net::ipv4_text(plan.server)
            &&& words[2] == "MASK"@
            &&& words[3] == net::ipv4_text(Ipv4Addr { a: 255, b: 255, c: 255, d: 255 })
            &&& words[4] == net::ipv4_text(plan.gateway)
            &&& words[5] == "IF"@
            &&& words[6] == text::decimal(plan.interface_index as nat)
        }),
{
}

/// A machine that keeps the low byte first keeps the bytes of an address in the order in which they
/// are written, the first lowest; one that keeps the high byte first, the first highest.
pub proof fn law_the_bytes_of_a_number_in_memory(value: u32, order: ByteOrder)
    ensures
        ({
            let b = memory_bytes(value, order);
            &&& b.len() == 4
            &&& order is Little ==> value == b[0] + 256 * b[1] + 65536 * b[2] + 16777216 * b[3]
            &&& order is Big ==> value == b[3] + 256 * b[2] + 65536 * b[1] + 16777216 * b[0]
        }),
{
    bytes::lemma_le32_roundtrip(value);
}

/// A server has a plan where an interface leads to it and that interface has a gateway; of the two
/// the interface is asked for first.
pub proof fn law_what_a_plan_needs(
    server: Ipv4Addr,
    interface_index: Option<u32>,
    gateway: Option<Ipv4Addr>,
)
    ensures
        ({
            let plan = resolved(server, interface_index, gateway);
            &&& plan is Ok <==> interface_index is Some && gateway is Some
            &&& plan matches Ok(plan) ==> plan.server == server && Some(plan.gateway) == gateway
                && Some(plan.interface_index) == interface_index
            &&& interface_index is None ==> plan == Err::<RoutePlan, RouteError>(
                RouteError::NoInterface,
            )
            &&& interface_index is Some && gateway is None ==> plan == Err::<RoutePlan, RouteError>(
                RouteError::NoGateway,
            )
        }),
{
}

/// The names of the reasons why a route could not be had.
pub proof fn law_the_names_of_route_errors(code: u32)
    ensures
        error_name(RouteError::NoInterface) == "NoInterface"@,
        error_name(RouteError::NoGateway) == "NoGateway"@,
        error_name(RouteError::AccessDenied) == "AccessDenied"@,
        error_name(RouteError::Unsupported) == "Unsupported"@,
        error_name(RouteError::Refused(code)) == "Refused("@ + text::decimal(code as nat) + ")"@,
{
}

} // verus!
