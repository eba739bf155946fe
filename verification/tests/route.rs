use drcom_campus::net::Ipv4Addr;
use drcom_campus::route::{
    apply_result, existing_host_route, from_network_order, gateway_for_interface, host_row,
    install_for, needs_command, plan as plan_route, to_network_order, ByteOrder, CommandResult,
    ForwardRow, InstalledRoute, RouteAction, RouteError, RouteMode, RouteOutcome, RoutePlan,
    RouteRequest,
};

const SERVER: Ipv4Addr = Ipv4Addr { a: 10, b: 100, c: 61, d: 3 };
const OTHER: Ipv4Addr = Ipv4Addr { a: 10, b: 100, c: 61, d: 4 };
const GATEWAY: Ipv4Addr = Ipv4Addr { a: 49, b: 140, c: 185, d: 254 };
const INDEX: u32 = 7;

fn plan() -> RoutePlan {
    RoutePlan {
        server: SERVER,
        gateway: GATEWAY,
        interface_index: INDEX,
    }
}

fn native() -> ByteOrder {
    if 1u32.to_ne_bytes()[0] == 1 {
        ByteOrder::Little
    } else {
        ByteOrder::Big
    }
}

#[test]
fn delete_arguments_match_the_original_log_line() {
    assert_eq!(
        plan().command_line(RouteAction::Delete),
        "route DELETE 10.100.61.3 MASK 255.255.255.255 49.140.185.254 IF 7"
    );
}

#[test]
fn add_uses_the_same_shape_as_delete() {
    assert_eq!(
        plan().arguments(RouteAction::Add),
        vec![
            "ADD",
            "10.100.61.3",
            "MASK",
            "255.255.255.255",
            "49.140.185.254",
            "IF",
            "7",
        ]
    );
}

#[test]
fn host_mask_is_always_a_single_address() {
    let arguments = plan().arguments(RouteAction::Add);
    assert_eq!(arguments[2], "MASK");
    assert_eq!(arguments[3], "255.255.255.255");
}

#[test]
fn addresses_keep_their_network_bytes_in_memory() {
    let order = native();
    assert_eq!(
        to_network_order(GATEWAY, order).to_ne_bytes(),
        GATEWAY.octets()
    );
    assert_eq!(
        to_network_order(SERVER, order).to_ne_bytes(),
        SERVER.octets()
    );
    assert_eq!(
        from_network_order(to_network_order(GATEWAY, order), order),
        GATEWAY
    );
    assert_eq!(
        from_network_order(to_network_order(SERVER, order), order),
        SERVER
    );
    assert_eq!(
        from_network_order(to_network_order(Ipv4Addr::unspecified(), order), order),
        Ipv4Addr::unspecified()
    );
}

#[test]
fn little_endian_readback_matches_the_live_smoke_run() {
    let order = ByteOrder::Little;
    assert_eq!(to_network_order(GATEWAY, order), 0xfeb9_8c31);
    assert_eq!(from_network_order(0xfeb9_8c31, order), GATEWAY);
    assert_ne!(
        from_network_order(0xfeb9_8c31, order),
        Ipv4Addr::new(254, 185, 140, 49)
    );
}

#[test]
fn big_endian_memory_holds_the_same_bytes() {
    assert_eq!(to_network_order(GATEWAY, ByteOrder::Big), 0x318c_b9fe);
    assert_eq!(from_network_order(0x318c_b9fe, ByteOrder::Big), GATEWAY);
}

#[test]
fn off_mode_never_touches_the_routing_table() {
    let installer = install_for(vec![SERVER], RouteMode::Off);
    assert_eq!(installer.request(), RouteRequest::Done);
    assert_eq!(installer.outcome, RouteOutcome::default());
    assert!(
        installer.reports.is_empty(),
        "an off session must not even resolve a plan"
    );
}

#[test]
fn satisfaction_needs_every_requested_server_to_be_routable() {
    let plan = plan();
    let satisfied = RouteOutcome {
        installed: vec![InstalledRoute { plan }],
        already_present: 1,
        failed: Vec::new(),
    };
    assert!(satisfied.is_satisfied(2));
    assert!(
        !satisfied.is_satisfied(3),
        "an unaccounted server is not satisfied"
    );

    let partial = RouteOutcome {
        installed: Vec::new(),
        already_present: 1,
        failed: vec![(SERVER, RouteError::NoGateway)],
    };
    assert!(!partial.is_satisfied(2));
}

#[test]
fn mode_flags_gate_resolution_and_application_separately() {
    assert!(!RouteMode::Off.is_enabled());
    assert!(!RouteMode::Off.applies());
    assert!(RouteMode::DryRun.is_enabled());
    assert!(!RouteMode::DryRun.applies(), "dry run must not mutate");
    assert!(RouteMode::Manage.is_enabled());
    assert!(RouteMode::Manage.applies());
    assert_eq!(RouteMode::default(), RouteMode::Off);
}

#[test]
fn managing_installs_what_is_missing_and_counts_what_is_there() {
    let mut installer = install_for(vec![SERVER, OTHER], RouteMode::Manage);
    assert_eq!(installer.request(), RouteRequest::Resolve(SERVER));
    installer.resolve(Some(INDEX), Some(GATEWAY), false);
    assert_eq!(installer.request(), RouteRequest::Apply(plan()));
    installer.applied(Ok(()));
    assert_eq!(installer.request(), RouteRequest::Resolve(OTHER));
    installer.resolve(Some(INDEX), Some(GATEWAY), true);
    assert_eq!(installer.request(), RouteRequest::Done);
    assert_eq!(installer.outcome.installed, vec![InstalledRoute { plan: plan() }]);
    assert_eq!(installer.outcome.already_present, 1);
    assert!(installer.outcome.is_satisfied(2));
}

#[test]
fn a_dry_run_reports_and_changes_nothing() {
    let mut installer = install_for(vec![SERVER], RouteMode::DryRun);
    installer.resolve(Some(INDEX), Some(GATEWAY), false);
    assert_eq!(installer.request(), RouteRequest::Done);
    assert!(installer.outcome.installed.is_empty());
    assert_eq!(installer.reports.len(), 1);
    assert_eq!(installer.reports[0].plan, plan());
}

#[test]
fn a_refused_route_is_a_failure_of_its_server() {
    let mut installer = install_for(vec![SERVER], RouteMode::Manage);
    installer.resolve(Some(INDEX), Some(GATEWAY), false);
    installer.applied(Err(RouteError::AccessDenied));
    assert_eq!(
        installer.outcome.failed,
        vec![(SERVER, RouteError::AccessDenied)]
    );
    assert!(!installer.outcome.is_satisfied(1));
}

#[test]
fn a_plan_needs_an_interface_and_a_gateway() {
    assert_eq!(
        plan_route(SERVER, None, Some(GATEWAY)),
        Err(RouteError::NoInterface)
    );
    assert_eq!(
        plan_route(SERVER, Some(INDEX), None),
        Err(RouteError::NoGateway)
    );
    assert_eq!(plan_route(SERVER, Some(INDEX), Some(GATEWAY)), Ok(plan()));
}

#[test]
fn the_table_is_searched_by_destination_and_interface() {
    let order = ByteOrder::Little;
    let default = |interface_index, next_hop, metric| ForwardRow {
        destination: 0,
        mask: 0,
        next_hop,
        interface_index,
        metric,
    };
    let host = host_row(&plan(), order);
    assert_eq!(host.mask, 0xffff_ffff);
    let rows = [
        default(3, 0x0100_000a, 5),
        default(INDEX, to_network_order(GATEWAY, order), 25),
        host,
    ];
    assert_eq!(gateway_for_interface(&rows, INDEX, order), Some(GATEWAY));
    assert_eq!(gateway_for_interface(&rows, 99, order), None);
    assert_eq!(existing_host_route(&rows, SERVER, order), Some(plan()));
    assert_eq!(existing_host_route(&rows, OTHER, order), None);
}

#[test]
fn the_command_is_only_needed_where_the_call_failed() {
    assert!(!needs_command(0));
    assert!(needs_command(87));
    assert_eq!(apply_result(0, CommandResult::NotStarted), Ok(()));
    assert_eq!(apply_result(87, CommandResult::Succeeded), Ok(()));
}

#[test]
fn every_route_error_has_a_name() {
    assert_eq!(RouteError::NoInterface.name(), "NoInterface");
    assert_eq!(RouteError::NoGateway.name(), "NoGateway");
    assert_eq!(RouteError::AccessDenied.name(), "AccessDenied");
    assert_eq!(RouteError::Refused(87).name(), "Refused(87)");
    assert_eq!(RouteError::Unsupported.name(), "Unsupported");
}

#[test]
fn a_failed_command_keeps_the_status_of_the_call() {
    assert_eq!(
        apply_result(5, CommandResult::NotStarted),
        Err(RouteError::AccessDenied)
    );
    assert_eq!(
        apply_result(87, CommandResult::NotStarted),
        Err(RouteError::NoInterface)
    );
    assert_eq!(
        apply_result(87, CommandResult::Failed(Some(5))),
        Err(RouteError::AccessDenied)
    );
    assert_eq!(
        apply_result(87, CommandResult::Failed(Some(1))),
        Err(RouteError::Refused(87))
    );
    assert_eq!(
        apply_result(87, CommandResult::Failed(None)),
        Err(RouteError::Refused(87))
    );
}
