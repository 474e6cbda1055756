use price_oracle::contract::{instantiate, query};
use price_oracle::msg::{ConfigResponse, InstantiateMsg, QueryMsg, QueryResponse};
use price_oracle::state::OracleState;
use price_oracle::ContractError;

const ONE: u128 = 1_000_000_000_000_000_000;

fn ratio(n: u128, d: u128) -> u128 {
    n * ONE / d
}

fn s(x: &str) -> String {
    x.to_string()
}

fn q_config(st: &OracleState) -> ConfigResponse {
    match query(st, QueryMsg::Config {}) {
        Ok(QueryResponse::Config(c)) => c,
        _ => panic!("config query failed"),
    }
}

#[test]
fn instantiating_with_all_parameters_specified() {
    let sender = s("sender");
    let admin = s("admin");

    let st = instantiate(
        InstantiateMsg {
            owner: Some(sender.clone()),
            admin: Some(admin.clone()),
            price_deviation_threshold: ratio(5, 100),
            supported_tokens: vec![s("pax-gold")],
            whitelisted_updaters: vec![admin.clone()],
        },
        &sender,
    )
    .unwrap();

    let res = q_config(&st);
    assert_eq!(admin, res.admin);
    assert_eq!(sender, res.owner);
    assert_eq!(ratio(5, 100), res.price_deviation_threshold);
}

#[test]
fn instantiate_with_default_owner() {
    let sender = s("sender");
    let admin = s("admin");

    let st = instantiate(
        InstantiateMsg {
            owner: None, // Default to sender
            admin: Some(admin.clone()),
            price_deviation_threshold: ratio(5, 100),
            supported_tokens: vec![s("btc")],
            whitelisted_updaters: vec![],
        },
        &sender,
    )
    .unwrap();

    let res = q_config(&st);
    assert_eq!(sender, res.owner);
}

#[test]
fn instantiate_with_default_admin() {
    let sender = s("sender");
    let owner = s("custom_owner");

    let st = instantiate(
        InstantiateMsg {
            owner: Some(owner.clone()),
            admin: None, // Default to owner
            price_deviation_threshold: ratio(5, 100),
            supported_tokens: vec![s("eth")],
            whitelisted_updaters: vec![],
        },
        &sender,
    )
    .unwrap();

    let res = q_config(&st);
    assert_eq!(owner, res.admin);
    assert_eq!(owner, res.owner);
}

#[test]
fn validate_price_deviation_threshold() {
    let sender = s("sender");

    // Test with valid threshold
    let st = instantiate(
        InstantiateMsg {
            owner: None,
            admin: None,
            price_deviation_threshold: ratio(5, 100),
            supported_tokens: vec![],
            whitelisted_updaters: vec![],
        },
        &sender,
    )
    .unwrap();

    let res = q_config(&st);
    assert_eq!(ratio(5, 100), res.price_deviation_threshold);

    // Test with invalid threshold (0)
    let err = instantiate(
        InstantiateMsg {
            owner: None,
            admin: None,
            price_deviation_threshold: 0,
            supported_tokens: vec![],
            whitelisted_updaters: vec![],
        },
        &sender,
    )
    .unwrap_err();

    assert!(matches!(err, ContractError::InvalidThreshold(ref m) if m.contains("Threshold must be between")));

    // Test with invalid threshold (> 100%)
    let err = instantiate(
        InstantiateMsg {
            owner: None,
            admin: None,
            price_deviation_threshold: ratio(101, 100),
            supported_tokens: vec![],
            whitelisted_updaters: vec![],
        },
        &sender,
    )
    .unwrap_err();

    assert!(matches!(err, ContractError::InvalidThreshold(ref m) if m.contains("Threshold must be between")));
}
