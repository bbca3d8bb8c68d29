//! Multi-hop swap routing: the decisions around a sequence of swaps through
//! AMM pools. Each hop is a call into an outside pool contract; the router
//! starts a swap, records each hop's output, and checks the final amount
//! against the caller's minimum.
use vstd::prelude::*;

verus! {

/// The AMM a route goes through.
#[derive(Clone, Copy, Debug, PartialEq, Eq, Structural)]
pub enum AMMProtocol {
    Phoenix,
    Aquarius,
}

/// One hop: swap `asset_in` for `asset_out` in `pool_address`.
#[derive(Clone, Debug, PartialEq, Eq)]
pub struct SwapRoute<A> {
    pub protocol: AMMProtocol,
    pub pool_address: A,
    pub asset_in: A,
    pub asset_out: A,
}

/// The swap router contract.
pub struct SwapRouterContract;

/// A swap in progress: the amount held after the hops done so far, and the
/// number of hops still to go.
#[derive(Clone, Copy, Debug, PartialEq, Eq, Structural)]
pub struct SwapProgress {
    pub current_amount: i128,
    pub hops_remaining: usize,
}

/// Starts a swap of `amount_in` along `route_count` hops; a swap needs at
/// least one route.
pub fn begin_swap(amount_in: i128, route_count: usize) -> (r: Result<SwapProgress, &'static str>)
    ensures
        route_count == 0 ==> (r matches Err(m) && m@ == "No swap routes provided"@),
        route_count > 0 ==> r == Ok::<SwapProgress, &'static str>(
            SwapProgress { current_amount: amount_in, hops_remaining: route_count },
        ),
{
    if route_count == 0 {
        return Err("No swap routes provided");
    }
    Ok(SwapProgress { current_amount: amount_in, hops_remaining: route_count })
}

/// Records that the next hop turned the current amount into `amount_out`.
pub fn record_hop(progress: SwapProgress, amount_out: i128) -> (r: SwapProgress)
    requires
        progress.hops_remaining > 0,
    ensures
        r == (SwapProgress { current_amount: amount_out, hops_remaining: (progress.hops_remaining - 1) as usize }),
{
    SwapProgress { current_amount: amount_out, hops_remaining: progress.hops_remaining - 1 }
}

/// Ends a swap whose hops are all done: the output, unless it is below
/// `min_amount_out`.
pub fn finish_swap(progress: SwapProgress, min_amount_out: i128) -> (r: Result<i128, &'static str>)
    requires
        progress.hops_remaining == 0,
    ensures
        progress.current_amount < min_amount_out ==> (r matches Err(m) && m@ == "Slippage tolerance exceeded"@),
        progress.current_amount >= min_amount_out ==> r == Ok::<i128, &'static str>(progress.current_amount),
{
    if progress.current_amount < min_amount_out {
        return Err("Slippage tolerance exceeded");
    }
    Ok(progress.current_amount)
}

} // verus!
