//! The protocol's pluggable modules and their default implementations.
use vstd::prelude::*;

verus! {

/// The default interest model (utilization and borrow rate of the pool).
pub struct DefaultInterestModel;

/// The default liquidation strategy (dynamic liquidation penalty).
pub struct DefaultLiquidationStrategy;

/// The identifiers of the registered modules: interest model, liquidation
/// strategy, fee calculator and risk parameters.
pub fn registered_modules() -> (r: (&'static str, &'static str, &'static str, &'static str))
    ensures
        r.0@ == "default-interest-model/v1"@,
        r.1@ == "default-liquidation-strategy/v1"@,
        r.2@ == "dynamic-reserve-factor/v1"@,
        r.3@ == "default-risk-parameters/v1"@,
{
    (
        "default-interest-model/v1",
        "default-liquidation-strategy/v1",
        "dynamic-reserve-factor/v1",
        "default-risk-parameters/v1",
    )
}

} // verus!
