//! Capability checks, threshold validation and the deviation computation.

use vstd::prelude::*;

use crate::DECIMAL_ONE;
use crate::error::{ContractError, ErrorView};
use crate::state::{spec_is_admin, spec_is_owner, spec_is_whitelisted, spec_supported, OracleState};
use crate::store::assoc_get;

verus! {

/// The deviation of a new observation from the committed price, as a
/// fraction in atomics rounded down: `|new - old| / old`, and one whole
/// unit when `old` is zero. Unbounded: the executable computation can
/// represent it only when it fits in `u128`.
pub open spec fn spec_deviation(old_price: u128, new_price: u128) -> int {
    if old_price == 0 {
        DECIMAL_ONE as int
    } else if new_price >= old_price {
        ((new_price - old_price) * DECIMAL_ONE as int) / old_price as int
    } else {
        ((old_price - new_price) * DECIMAL_ONE as int) / old_price as int
    }
}

/// The deviation of `new_price` from `old_price` is small enough to carry
/// in atomics.
pub open spec fn deviation_fits(old_price: u128, new_price: u128) -> bool {
    spec_deviation(old_price, new_price) <= u128::MAX as int
}

/// Relies on `cosmwasm_std::Decimal::checked_div`, which returns the ratio
/// of the two operands' atomics scaled by one whole unit, rounded down and
/// computed without intermediate overflow; it errs exactly when that ratio
/// does not fit in `u128`.
#[verifier::external_body]
fn decimal_div_floor(num: u128, den: u128) -> (r: Option<u128>)
    requires
        den != 0,
    ensures
        match r {
            Some(q) => q as int == (num as int * DECIMAL_ONE as int) / den as int,
            None => (num as int * DECIMAL_ONE as int) / den as int > u128::MAX as int,
        },
{
    let n = cosmwasm_std::Decimal::new(cosmwasm_std::Uint128::new(num));
    let d = cosmwasm_std::Decimal::new(cosmwasm_std::Uint128::new(den));
    match n.checked_div(d) {
        Ok(q) => Some(q.atomics().u128()),
        Err(_) => None,
    }
}

/// Whether the deviation of `new_price` from `old_price` is representable,
/// decided at run time; callers check this before asking for the deviation
/// itself.
pub fn deviation_representable(old_price: u128, new_price: u128) -> (r: bool)
    ensures
        r == deviation_fits(old_price, new_price),
{
    if old_price == 0 {
        return true;
    }
    let diff = if new_price > old_price {
        new_price - old_price
    } else {
        old_price - new_price
    };
    decimal_div_floor(diff, old_price).is_some()
}

/// The deviation of `new_price` from `old_price` in atomics.
pub fn calculate_price_deviation(old_price: u128, new_price: u128) -> (r: u128)
    requires
        deviation_fits(old_price, new_price),
    ensures
        r as int == spec_deviation(old_price, new_price),
{
    if old_price == 0 {
        return DECIMAL_ONE;
    }
    let diff = if new_price > old_price {
        new_price - old_price
    } else {
        old_price - new_price
    };
    match decimal_div_floor(diff, old_price) {
        Some(q) => q,
        None => vstd::pervasive::unreached(),
    }
}

/// A threshold fraction is accepted exactly when it lies in the half-open
/// unit interval `(0, 1]`.
pub fn validate_threshold(threshold: u128) -> (r: Result<(), ContractError>)
    ensures
        r is Ok <==> 0 < threshold <= DECIMAL_ONE,
        r matches Err(e) ==> e@ == ErrorView::InvalidThreshold(
            "Threshold must be between 0 and 100 percent"@,
        ),
{
    if threshold == 0 || threshold > DECIMAL_ONE {
        Err(
            ContractError::InvalidThreshold(
                "Threshold must be between 0 and 100 percent".to_owned(),
            ),
        )
    } else {
        Ok(())
    }
}

/// The caller is the configured owner.
pub fn is_owner(state: &OracleState, address: &String) -> (r: bool)
    ensures
        r == spec_is_owner(state@, address@),
{
    *address == state.config.owner
}

/// The caller is the configured admin or the owner.
pub fn is_admin(state: &OracleState, address: &String) -> (r: bool)
    ensures
        r == spec_is_admin(state@, address@),
{
    *address == state.config.admin || *address == state.config.owner
}

/// The caller may submit prices: an admin, the owner, or an explicitly
/// whitelisted updater.
pub fn is_whitelisted(state: &OracleState, address: &String) -> (r: bool)
    requires
        state.wf(),
    ensures
        r == spec_is_whitelisted(state@, address@),
{
    if is_admin(state, address) {
        return true;
    }
    match assoc_get(&state.whitelisted_updaters, address) {
        Some(flag) => *flag,
        None => false,
    }
}

/// The token is registered and currently marked supported.
pub fn is_token_supported(state: &OracleState, token_id: &String) -> (r: bool)
    requires
        state.wf(),
    ensures
        r == spec_supported(state@, token_id@),
{
    match assoc_get(&state.tokens, token_id) {
        Some(info) => info.supported,
        None => false,
    }
}

} // verus!
