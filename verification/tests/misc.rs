use stellar_lend::events::{protocol_event_data, protocol_event_name, EVENT_VERSION};
use stellar_lend::swap_router::{begin_swap, finish_swap, record_hop, SwapProgress};
use stellar_lend::traits::registered_modules;

#[test]
fn event_name_joins_module_and_action() {
    assert_eq!(protocol_event_name("Pool", "Deposited"), "Pool_Deposited");
    assert_eq!(protocol_event_name("", ""), "_");
    assert_eq!(protocol_event_data(42), (42, EVENT_VERSION));
    assert_eq!(EVENT_VERSION, 1);
}

#[test]
fn swap_route_decisions() {
    assert_eq!(begin_swap(100, 0), Err("No swap routes provided"));
    let p = begin_swap(100, 2).unwrap();
    assert_eq!(p, SwapProgress { current_amount: 100, hops_remaining: 2 });
    let p = record_hop(p, 95);
    let p = record_hop(p, 90);
    assert_eq!(p.hops_remaining, 0);
    assert_eq!(finish_swap(p, 91), Err("Slippage tolerance exceeded"));
    assert_eq!(finish_swap(p, 90), Ok(90));
}

#[test]
fn modules_are_registered() {
    assert_eq!(
        registered_modules(),
        (
            "default-interest-model/v1",
            "default-liquidation-strategy/v1",
            "dynamic-reserve-factor/v1",
            "default-risk-parameters/v1",
        )
    );
}
