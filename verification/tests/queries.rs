use price_oracle::contract::{execute, instantiate, query};
use price_oracle::msg::{
    AllPricesResponse, ConfigResponse, ExecuteMsg, InstantiateMsg, PendingUpdatesResponse,
    PriceHistoryResponse, QueryMsg, QueryResponse, SupportedTokensResponse, TokenPriceInfo,
    TokenPriceResponse, WhitelistedUpdatersResponse,
};
use price_oracle::state::OracleState;
use price_oracle::ContractError;

const ONE: u128 = 1_000_000_000_000_000_000;
const NOW: u64 = 1_600_000_000;

fn ratio(n: u128, d: u128) -> u128 {
    n * ONE / d
}

fn s(x: &str) -> String {
    x.to_string()
}

fn q_config(st: &OracleState) -> ConfigResponse {
    match query(st, QueryMsg::Config {}) {
        Ok(QueryResponse::Config(c)) => c,
        _ => panic!("config query failed"),
    }
}

fn q_price(st: &OracleState, token: &str) -> Result<TokenPriceResponse, ContractError> {
    match query(st, QueryMsg::TokenPrice { token_id: s(token) }) {
        Ok(QueryResponse::TokenPrice(p)) => Ok(p),
        Ok(_) => panic!("unexpected response"),
        Err(e) => Err(e),
    }
}

fn q_all_prices(st: &OracleState) -> AllPricesResponse {
    match query(st, QueryMsg::AllPrices {}) {
        Ok(QueryResponse::AllPrices(a)) => a,
        _ => panic!("all-prices query failed"),
    }
}

fn q_pending(st: &OracleState) -> PendingUpdatesResponse {
    match query(st, QueryMsg::PendingUpdates {}) {
        Ok(QueryResponse::PendingUpdates(p)) => p,
        _ => panic!("pending query failed"),
    }
}

fn q_tokens(st: &OracleState) -> SupportedTokensResponse {
    match query(st, QueryMsg::SupportedTokens {}) {
        Ok(QueryResponse::SupportedTokens(t)) => t,
        _ => panic!("supported tokens query failed"),
    }
}

fn q_updaters(st: &OracleState) -> WhitelistedUpdatersResponse {
    match query(st, QueryMsg::WhitelistedUpdaters {}) {
        Ok(QueryResponse::WhitelistedUpdaters(w)) => w,
        _ => panic!("whitelist query failed"),
    }
}

fn q_history(
    st: &OracleState,
    token: &str,
    start_time: Option<u64>,
    end_time: Option<u64>,
    limit: Option<u32>,
) -> Result<PriceHistoryResponse, ContractError> {
    match query(st, QueryMsg::PriceHistory { token_id: s(token), start_time, end_time, limit }) {
        Ok(QueryResponse::PriceHistory(h)) => Ok(h),
        Ok(_) => panic!("unexpected response"),
        Err(e) => Err(e),
    }
}

fn setup_with_prices() -> OracleState {
    let owner = s("owner");
    let admin = s("admin");
    let updater = s("updater");

    let mut st = instantiate(
        InstantiateMsg {
            owner: Some(owner.clone()),
            admin: Some(admin.clone()),
            price_deviation_threshold: ratio(5, 100),
            supported_tokens: vec![s("btc"), s("eth"), s("sol")],
            whitelisted_updaters: vec![updater.clone()],
        },
        &owner,
    )
    .unwrap();

    // Set prices
    execute(
        &mut st,
        NOW,
        &updater,
        ExecuteMsg::UpdateSinglePrice {
            token_id: s("btc"),
            price_info: TokenPriceInfo { usd: ratio(40000, 1) },
        },
    )
    .unwrap();

    execute(
        &mut st,
        NOW,
        &updater,
        ExecuteMsg::UpdateSinglePrice {
            token_id: s("eth"),
            price_info: TokenPriceInfo { usd: ratio(2000, 1) },
        },
    )
    .unwrap();

    // Create pending update
    execute(
        &mut st,
        NOW,
        &updater,
        ExecuteMsg::UpdateSinglePrice {
            token_id: s("btc"),
            price_info: TokenPriceInfo { usd: ratio(50000, 1) },
        },
    )
    .unwrap();

    st
}

#[test]
fn query_config_returns_correct_values() {
    let st = setup_with_prices();

    let res = q_config(&st);
    assert_eq!(s("owner"), res.owner);
    assert_eq!(s("admin"), res.admin);
    assert_eq!(ratio(5, 100), res.price_deviation_threshold);
}

#[test]
fn query_token_price_for_existing_price() {
    let st = setup_with_prices();

    let res = q_price(&st, "btc").unwrap();
    assert_eq!("btc", res.token_id);
    assert_eq!(ratio(40000, 1), res.price);
}

#[test]
fn query_token_price_for_non_existent_price_fails() {
    let st = setup_with_prices();

    let err = q_price(&st, "sol").unwrap_err();
    assert!(matches!(err, ContractError::NoPriceData(ref t) if t == "sol"));
}

#[test]
fn query_token_price_for_non_supported_token_fails() {
    let st = setup_with_prices();

    let err = q_price(&st, "xrp").unwrap_err();
    assert!(matches!(err, ContractError::TokenNotSupported(ref t) if t == "xrp"));
}

#[test]
fn query_all_prices_returns_correct_list() {
    let st = setup_with_prices();

    let res = q_all_prices(&st);
    assert_eq!(2, res.prices.len());
    assert!(res.prices.iter().any(|(k, _)| k == "btc"));
    assert!(res.prices.iter().any(|(k, _)| k == "eth"));
    let btc = res.prices.iter().find(|(k, _)| k == "btc").unwrap();
    assert_eq!(ratio(40000, 1), btc.1.usd);
    let eth = res.prices.iter().find(|(k, _)| k == "eth").unwrap();
    assert_eq!(ratio(2000, 1), eth.1.usd);
}

#[test]
fn query_price_history_with_default_parameters() {
    let st = setup_with_prices();

    let res = q_history(&st, "btc", None, None, None).unwrap();
    assert_eq!("btc", res.token_id);
    println!("History: {:?}", res.history);

    assert_eq!(res.history.len(), 1);
    assert_eq!(res.history[0].price, ratio(40000, 1));
}

#[test]
fn query_pending_updates_returns_correct_list() {
    let st = setup_with_prices();

    let res = q_pending(&st);
    println!("{:?}", res.updates);
    assert_eq!(1, res.updates.len());
    assert_eq!("btc", res.updates[0].token_id);
    assert_eq!(ratio(40000, 1), res.updates[0].current_price);
    assert_eq!(ratio(50000, 1), res.updates[0].new_price);
}

#[test]
fn query_supported_tokens_returns_only_supported_tokens() {
    let mut st = setup_with_prices();
    let admin = s("admin");

    // Remove support for one token
    execute(&mut st, NOW, &admin, ExecuteMsg::RemoveSupportedToken { token_id: s("sol") })
        .unwrap();

    let res = q_tokens(&st);
    assert_eq!(2, res.tokens.len());
    assert!(res.tokens.contains(&s("btc")));
    assert!(res.tokens.contains(&s("eth")));
    assert!(!res.tokens.contains(&s("sol")));
}

#[test]
fn query_whitelisted_updaters_returns_correct_list() {
    let mut st = setup_with_prices();
    let admin = s("admin");

    // Add another updater
    execute(&mut st, NOW, &admin, ExecuteMsg::AddWhitelistedUpdater { updater: s("new_updater") })
        .unwrap();

    let res = q_updaters(&st);
    assert_eq!(2, res.updaters.len());
    assert!(res.updaters.contains(&s("updater")));
    assert!(res.updaters.contains(&s("new_updater")));
}
