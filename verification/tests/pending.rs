use price_oracle::contract::{execute, instantiate, query};
use price_oracle::msg::{
    ExecuteMsg, InstantiateMsg, PendingUpdatesResponse, QueryMsg, QueryResponse, TokenPriceInfo,
    TokenPriceResponse,
};
use price_oracle::state::OracleState;
use price_oracle::ContractError;

const ONE: u128 = 1_000_000_000_000_000_000;
const NOW: u64 = 1_600_000_000;

fn ratio(n: u128, d: u128) -> u128 {
    n * ONE / d
}

fn s(x: &str) -> String {
    x.to_string()
}

fn q_price(st: &OracleState, token: &str) -> Result<TokenPriceResponse, ContractError> {
    match query(st, QueryMsg::TokenPrice { token_id: s(token) }) {
        Ok(QueryResponse::TokenPrice(p)) => Ok(p),
        Ok(_) => panic!("unexpected response"),
        Err(e) => Err(e),
    }
}

fn q_pending(st: &OracleState) -> PendingUpdatesResponse {
    match query(st, QueryMsg::PendingUpdates {}) {
        Ok(QueryResponse::PendingUpdates(p)) => p,
        _ => panic!("pending query failed"),
    }
}

fn setup_with_pending_update() -> (OracleState, String, String, String) {
    let owner = s("owner");
    let admin = s("admin");
    let updater = s("updater");
    let non_admin = s("non_admin");

    let mut st = instantiate(
        InstantiateMsg {
            owner: Some(owner.clone()),
            admin: Some(admin.clone()),
            price_deviation_threshold: ratio(5, 100),
            supported_tokens: vec![s("btc")],
            whitelisted_updaters: vec![updater.clone()],
        },
        &owner,
    )
    .unwrap();

    // Set initial price for BTC
    execute(
        &mut st,
        NOW,
        &updater,
        ExecuteMsg::UpdateSinglePrice {
            token_id: s("btc"),
            price_info: TokenPriceInfo { usd: ratio(40000, 1) },
        },
    )
    .unwrap();

    // Create a pending update by setting price beyond threshold
    execute(
        &mut st,
        NOW,
        &updater,
        ExecuteMsg::UpdateSinglePrice {
            token_id: s("btc"),
            price_info: TokenPriceInfo { usd: ratio(50000, 1) },
        },
    )
    .unwrap();

    (st, owner, admin, non_admin)
}

#[test]
fn admin_can_approve_pending_price() {
    let (mut st, _, admin, _) = setup_with_pending_update();

    // Admin approves price
    execute(
        &mut st,
        NOW,
        &admin,
        ExecuteMsg::ApprovePrice { token_id: s("btc"), price: ratio(50000, 1) },
    )
    .unwrap();

    // Check price was updated
    let res = q_price(&st, "btc").unwrap();
    assert_eq!(ratio(50000, 1), res.price);

    // Check pending update was removed
    let res = q_pending(&st);
    assert_eq!(0, res.updates.len());
}

#[test]
fn owner_can_approve_pending_price() {
    let (mut st, owner, _, _) = setup_with_pending_update();

    // Owner approves price
    execute(
        &mut st,
        NOW,
        &owner,
        ExecuteMsg::ApprovePrice { token_id: s("btc"), price: ratio(50000, 1) },
    )
    .unwrap();

    // Check price was updated
    let res = q_price(&st, "btc").unwrap();
    assert_eq!(ratio(50000, 1), res.price);
}

#[test]
fn non_admin_cannot_approve_pending_price() {
    let (mut st, _, _, non_admin) = setup_with_pending_update();

    // Non-admin tries to approve price
    let err = execute(
        &mut st,
        NOW,
        &non_admin,
        ExecuteMsg::ApprovePrice { token_id: s("btc"), price: ratio(50000, 1) },
    )
    .unwrap_err();

    assert!(matches!(err, ContractError::Unauthorized {}));
}

#[test]
fn approving_non_existent_pending_update_fails() {
    let (mut st, _, admin, _) = setup_with_pending_update();

    // Try to approve update for non-existent token
    let err = execute(
        &mut st,
        NOW,
        &admin,
        ExecuteMsg::ApprovePrice { token_id: s("eth"), price: ratio(2000, 1) },
    )
    .unwrap_err();

    assert!(matches!(err, ContractError::TokenNotSupported(ref t) if t == "eth"));
}

#[test]
fn admin_can_reject_pending_price() {
    let (mut st, _, admin, _) = setup_with_pending_update();

    // Admin rejects price
    execute(&mut st, NOW, &admin, ExecuteMsg::RejectPrice { token_id: s("btc") }).unwrap();

    // Check the earlier price is maintained
    let res = q_price(&st, "btc").unwrap();
    assert_eq!(ratio(40000, 1), res.price);

    // Check pending update was removed
    let res = q_pending(&st);
    assert_eq!(0, res.updates.len());
}

#[test]
fn owner_can_reject_pending_price() {
    let (mut st, owner, _, _) = setup_with_pending_update();

    // Owner rejects price
    execute(&mut st, NOW, &owner, ExecuteMsg::RejectPrice { token_id: s("btc") }).unwrap();

    // Check pending update was removed
    let res = q_pending(&st);
    assert_eq!(0, res.updates.len());
}

#[test]
fn non_admin_cannot_reject_pending_price() {
    let (mut st, _, _, non_admin) = setup_with_pending_update();

    // Non-admin tries to reject price
    let err = execute(&mut st, NOW, &non_admin, ExecuteMsg::RejectPrice { token_id: s("btc") })
        .unwrap_err();

    assert!(matches!(err, ContractError::Unauthorized {}));
}

#[test]
fn rejecting_non_existent_pending_update_fails() {
    let (mut st, _, admin, _) = setup_with_pending_update();

    // Try to reject update for non-existent token
    let err = execute(&mut st, NOW, &admin, ExecuteMsg::RejectPrice { token_id: s("eth") })
        .unwrap_err();

    assert!(matches!(err, ContractError::NoPendingUpdate(ref t) if t == "eth"));
}
