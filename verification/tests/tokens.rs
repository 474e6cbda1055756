use price_oracle::contract::{execute, instantiate, query};
use price_oracle::msg::{ExecuteMsg, InstantiateMsg, QueryMsg, QueryResponse, SupportedTokensResponse};
use price_oracle::state::OracleState;
use price_oracle::ContractError;

const ONE: u128 = 1_000_000_000_000_000_000;
const NOW: u64 = 1_600_000_000;

fn ratio(n: u128, d: u128) -> u128 {
    n * ONE / d
}

fn s(x: &str) -> String {
    x.to_string()
}

fn q_tokens(st: &OracleState) -> SupportedTokensResponse {
    match query(st, QueryMsg::SupportedTokens {}) {
        Ok(QueryResponse::SupportedTokens(t)) => t,
        _ => panic!("supported tokens query failed"),
    }
}

fn setup() -> (OracleState, String, String, String) {
    let owner = s("owner");
    let admin = s("admin");
    let non_admin = s("non_admin");

    let st = instantiate(
        InstantiateMsg {
            owner: Some(owner.clone()),
            admin: Some(admin.clone()),
            price_deviation_threshold: ratio(5, 100),
            supported_tokens: vec![s("btc")],
            whitelisted_updaters: vec![],
        },
        &owner,
    )
    .unwrap();

    (st, owner, admin, non_admin)
}

#[test]
fn admin_can_add_supported_token() {
    let (mut st, _, admin, _) = setup();
    let new_token = "eth";

    // Admin adds token
    execute(&mut st, NOW, &admin, ExecuteMsg::AddSupportedToken { token_id: s(new_token) })
        .unwrap();

    let res = q_tokens(&st);
    assert!(res.tokens.contains(&s(new_token)));
}

#[test]
fn owner_can_add_supported_token() {
    let (mut st, owner, _, _) = setup();
    let new_token = "sol";

    // Owner adds token
    execute(&mut st, NOW, &owner, ExecuteMsg::AddSupportedToken { token_id: s(new_token) })
        .unwrap();

    let res = q_tokens(&st);
    assert!(res.tokens.contains(&s(new_token)));
}

#[test]
fn non_admin_cannot_add_supported_token() {
    let (mut st, _, _, non_admin) = setup();
    let new_token = "avax";

    // Non-admin tries to add token
    let err = execute(&mut st, NOW, &non_admin, ExecuteMsg::AddSupportedToken { token_id: s(new_token) })
        .unwrap_err();

    assert!(matches!(err, ContractError::Unauthorized {}));
}

#[test]
fn adding_already_supported_token_fails() {
    let (mut st, _, admin, _) = setup();
    let existing_token = "btc";

    // Try to add already supported token
    let err = execute(
        &mut st,
        NOW,
        &admin,
        ExecuteMsg::AddSupportedToken { token_id: s(existing_token) },
    )
    .unwrap_err();

    assert!(matches!(err, ContractError::TokenAlreadySupported(ref t) if t == "btc"));
}

#[test]
fn admin_can_remove_supported_token() {
    let (mut st, _, admin, _) = setup();
    let existing_token = "btc";

    // Admin removes token
    execute(
        &mut st,
        NOW,
        &admin,
        ExecuteMsg::RemoveSupportedToken { token_id: s(existing_token) },
    )
    .unwrap();

    let res = q_tokens(&st);
    assert!(!res.tokens.contains(&s(existing_token)));
}

#[test]
fn owner_can_remove_supported_token() {
    let (mut st, owner, _, _) = setup();
    let existing_token = "btc";

    // Owner removes token
    execute(
        &mut st,
        NOW,
        &owner,
        ExecuteMsg::RemoveSupportedToken { token_id: s(existing_token) },
    )
    .unwrap();

    let res = q_tokens(&st);
    assert!(!res.tokens.contains(&s(existing_token)));
}

#[test]
fn non_admin_cannot_remove_supported_token() {
    let (mut st, _, _, non_admin) = setup();
    let existing_token = "btc";

    // Non-admin tries to remove token
    let err = execute(
        &mut st,
        NOW,
        &non_admin,
        ExecuteMsg::RemoveSupportedToken { token_id: s(existing_token) },
    )
    .unwrap_err();

    assert!(matches!(err, ContractError::Unauthorized {}));
}

#[test]
fn removing_non_supported_token_fails() {
    let (mut st, _, admin, _) = setup();
    let non_existing_token = "not_a_token";

    // Try to remove non-supported token
    let err = execute(
        &mut st,
        NOW,
        &admin,
        ExecuteMsg::RemoveSupportedToken { token_id: s(non_existing_token) },
    )
    .unwrap_err();

    assert!(matches!(err, ContractError::TokenNotSupported(ref t) if t == non_existing_token));
}
