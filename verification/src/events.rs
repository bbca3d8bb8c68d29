//! Standardized protocol events: a `{Module}_{Action}` name, the indexed
//! caller and asset, and the amount with the event schema version.
use vstd::prelude::*;

verus! {

/// Version of the protocol event schema.
pub const EVENT_VERSION: u32 = 1;

/// The event name `{module}_{action}` (e.g. `Pool_Deposited`).
pub fn protocol_event_name(module: &str, action: &str) -> (r: String)
    ensures
        r@ == module@ + "_"@ + action@,
{
    let mut module_action = String::from_str(module);
    module_action.append("_");
    module_action.append(action);
    module_action
}

/// The event data: the amount and the schema version.
pub fn protocol_event_data(amount: i128) -> (r: (i128, u32))
    ensures
        r == (amount, EVENT_VERSION),
{
    (amount, EVENT_VERSION)
}

} // verus!
