use price_oracle::contract::{execute, instantiate, query};
use price_oracle::msg::{
    ExecuteMsg, InstantiateMsg, PendingUpdatesResponse, PriceData, QueryMsg, QueryResponse,
    TokenPriceInfo, TokenPriceResponse,
};
use price_oracle::state::OracleState;
use price_oracle::ContractError;

const ONE: u128 = 1_000_000_000_000_000_000;
const NOW: u64 = 1_600_000_000;

fn ratio(n: u128, d: u128) -> u128 {
    n * ONE / d
}

fn s(x: &str) -> String {
    x.to_string()
}

fn q_price(st: &OracleState, token: &str) -> Result<TokenPriceResponse, ContractError> {
    match query(st, QueryMsg::TokenPrice { token_id: s(token) }) {
        Ok(QueryResponse::TokenPrice(p)) => Ok(p),
        Ok(_) => panic!("unexpected response"),
        Err(e) => Err(e),
    }
}

fn q_pending(st: &OracleState) -> PendingUpdatesResponse {
    match query(st, QueryMsg::PendingUpdates {}) {
        Ok(QueryResponse::PendingUpdates(p)) => p,
        _ => panic!("pending query failed"),
    }
}

fn setup() -> (OracleState, String, String, String, String) {
    let owner = s("owner");
    let admin = s("admin");
    let updater = s("updater");
    let non_updater = s("non_updater");

    let mut st = instantiate(
        InstantiateMsg {
            owner: Some(owner.clone()),
            admin: Some(admin.clone()),
            price_deviation_threshold: ratio(5, 100),
            supported_tokens: vec![s("btc"), s("eth")],
            whitelisted_updaters: vec![updater.clone()],
        },
        &owner,
    )
    .unwrap();

    // Set initial price for BTC
    execute(
        &mut st,
        NOW,
        &updater,
        ExecuteMsg::UpdateSinglePrice {
            token_id: s("btc"),
            price_info: TokenPriceInfo { usd: ratio(40000, 1) },
        },
    )
    .unwrap();

    (st, owner, admin, updater, non_updater)
}

#[test]
fn whitelisted_updater_can_update_single_price() {
    let (mut st, _, _, updater, _) = setup();

    // Update price
    execute(
        &mut st,
        NOW,
        &updater,
        ExecuteMsg::UpdateSinglePrice {
            token_id: s("btc"),
            price_info: TokenPriceInfo { usd: ratio(41000, 1) },
        },
    )
    .unwrap();

    let res = q_price(&st, "btc").unwrap();
    assert_eq!(ratio(41000, 1), res.price);
}

#[test]
fn admin_can_update_single_price() {
    let (mut st, _, admin, _, _) = setup();

    // Admin updates price
    execute(
        &mut st,
        NOW,
        &admin,
        ExecuteMsg::UpdateSinglePrice {
            token_id: s("btc"),
            price_info: TokenPriceInfo { usd: ratio(42000, 1) },
        },
    )
    .unwrap();

    let res = q_price(&st, "btc").unwrap();
    assert_eq!(ratio(42000, 1), res.price);
}

#[test]
fn owner_can_update_single_price() {
    let (mut st, owner, _, _, _) = setup();

    // Owner updates price
    execute(
        &mut st,
        NOW,
        &owner,
        ExecuteMsg::UpdateSinglePrice {
            token_id: s("btc"),
            price_info: TokenPriceInfo { usd: ratio(42000, 1) },
        },
    )
    .unwrap();

    let res = q_price(&st, "btc").unwrap();
    assert_eq!(ratio(42000, 1), res.price);
}

#[test]
fn non_whitelisted_updater_cannot_update_price() {
    let (mut st, _, _, _, non_updater) = setup();

    // Non-whitelisted updater tries to update price
    let err = execute(
        &mut st,
        NOW,
        &non_updater,
        ExecuteMsg::UpdateSinglePrice {
            token_id: s("btc"),
            price_info: TokenPriceInfo { usd: ratio(44000, 1) },
        },
    )
    .unwrap_err();

    assert!(matches!(err, ContractError::Unauthorized {}));
}

#[test]
fn updating_non_supported_token_fails() {
    let (mut st, _, _, updater, _) = setup();

    // Try to update non-supported token
    let err = execute(
        &mut st,
        NOW,
        &updater,
        ExecuteMsg::UpdateSinglePrice {
            token_id: s("xrp"),
            price_info: TokenPriceInfo { usd: ratio(1, 1) },
        },
    )
    .unwrap_err();

    assert!(matches!(err, ContractError::TokenNotSupported(ref t) if t == "xrp"));
}

#[test]
fn updating_prices_within_threshold_succeeds() {
    let (mut st, _, _, updater, _) = setup();

    // Update price within 5% threshold (initial price is 40000)
    execute(
        &mut st,
        NOW,
        &updater,
        ExecuteMsg::UpdateSinglePrice {
            token_id: s("btc"),
            price_info: TokenPriceInfo { usd: ratio(41000, 1) },
        },
    )
    .unwrap();

    let res = q_price(&st, "btc").unwrap();
    assert_eq!(ratio(41000, 1), res.price);
}

#[test]
fn updating_prices_beyond_threshold_creates_pending_update() {
    let (mut st, _, _, updater, _) = setup();

    // Update price beyond 5% threshold (initial price is 40000)
    execute(
        &mut st,
        NOW,
        &updater,
        ExecuteMsg::UpdateSinglePrice {
            token_id: s("btc"),
            price_info: TokenPriceInfo { usd: ratio(50000, 1) },
        },
    )
    .unwrap();

    // Price should not update immediately
    let res = q_price(&st, "btc").unwrap();
    assert_eq!(ratio(40000, 1), res.price);

    // A pending update should be created
    let res = q_pending(&st);
    assert_eq!(1, res.updates.len());
    assert_eq!("btc", res.updates[0].token_id);
    assert_eq!(ratio(50000, 1), res.updates[0].new_price);
}

#[test]
fn batch_price_updates_for_multiple_tokens() {
    let (mut st, _, _, updater, _) = setup();

    // Create price data for batch update
    let prices = vec![
        (s("btc"), TokenPriceInfo { usd: ratio(41000, 1) }),
        (s("eth"), TokenPriceInfo { usd: ratio(2000, 1) }),
    ];

    // Execute batch update
    execute(&mut st, NOW, &updater, ExecuteMsg::UpdatePrices { price_data: PriceData { prices } })
        .unwrap();

    // Check BTC price
    let res_btc = q_price(&st, "btc").unwrap();
    assert_eq!(ratio(41000, 1), res_btc.price);

    // Check ETH price
    let res_eth = q_price(&st, "eth").unwrap();
    assert_eq!(ratio(2000, 1), res_eth.price);
}

#[test]
fn batch_updates_with_some_prices_within_threshold_and_some_beyond() {
    let (mut st, _, _, updater, _) = setup();

    // First set ETH price
    execute(
        &mut st,
        NOW,
        &updater,
        ExecuteMsg::UpdateSinglePrice {
            token_id: s("eth"),
            price_info: TokenPriceInfo { usd: ratio(2000, 1) },
        },
    )
    .unwrap();

    // Within threshold for BTC, beyond threshold for ETH
    let prices = vec![
        (s("btc"), TokenPriceInfo { usd: ratio(41000, 1) }),
        (s("eth"), TokenPriceInfo { usd: ratio(3000, 1) }),
    ];

    // Execute batch update
    execute(&mut st, NOW, &updater, ExecuteMsg::UpdatePrices { price_data: PriceData { prices } })
        .unwrap();

    // Check BTC price (should update)
    let res_btc = q_price(&st, "btc").unwrap();
    assert_eq!(ratio(41000, 1), res_btc.price);

    // Check ETH price (should not update)
    let res_eth = q_price(&st, "eth").unwrap();
    assert_eq!(ratio(2000, 1), res_eth.price);

    // Check pending updates
    let res = q_pending(&st);
    assert_eq!(1, res.updates.len());
    assert_eq!("eth", res.updates[0].token_id);
    assert_eq!(ratio(3000, 1), res.updates[0].new_price);
}
