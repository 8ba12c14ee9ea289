use cw_escrow::addr::Addr;
use cw_escrow::contract::{execute, instantiate, query};
use cw_escrow::error::ContractError;
use cw_escrow::msg::{ExecuteMsg, InstantiateMsg, QueryMsg, QueryResponse};
use cw_escrow::state::Storage;
use cw_escrow::types::{Coin, Env, MessageInfo, TransferInstruction};

fn coin(amount: u128, denom: &str) -> Coin {
    Coin { denom: denom.to_string(), amount }
}

fn coins(amount: u128, denom: &str) -> Vec<Coin> {
    vec![coin(amount, denom)]
}

fn mock_info(sender: &str, funds: &[Coin]) -> MessageInfo {
    MessageInfo { sender: Addr::unchecked(sender), funds: funds.to_vec() }
}

fn mock_env() -> Env {
    Env { height: 12345, time: 1571797419, contract_balance: vec![] }
}

fn get_count(storage: &Storage) -> i32 {
    let res = query(storage, QueryMsg::GetCount {}).unwrap();
    match res {
        QueryResponse::Count(value) => value.count,
        _ => panic!("expected a count answer"),
    }
}

#[test]
fn proper_initialization() {
    let msg = InstantiateMsg { count: 17, minimal_donation: coin(10, "atom") };
    let info = mock_info("creator", &coins(1000, "atom"));

    let (deps, res) = instantiate(info, msg);
    assert_eq!(0, res.messages.len());

    // it worked, let's query the state
    assert_eq!(17, get_count(&deps));
}

#[test]
fn increment() {
    let msg = InstantiateMsg { count: 17, minimal_donation: coin(10, "atom") };
    let info = mock_info("creator", &coins(2, "atom"));
    let (mut deps, _res) = instantiate(info, msg);

    // anyone can raise the counter
    let info = mock_info("anyone", &coins(2, "atom"));
    let msg = ExecuteMsg::Increment {};
    let _res = execute(&mut deps, &mock_env(), info, msg).unwrap();

    // should increase the counter by 1
    assert_eq!(18, get_count(&deps));
}

#[test]
fn reset() {
    let msg = InstantiateMsg { count: 17, minimal_donation: coin(10, "atom") };
    let info = mock_info("creator", &coins(2, "atom"));
    let (mut deps, _res) = instantiate(info, msg);

    // a stranger cannot reset it
    let unauth_info = mock_info("anyone", &coins(2, "atom"));
    let msg = ExecuteMsg::Reset { count: 5 };
    let res = execute(&mut deps, &mock_env(), unauth_info, msg);
    match res {
        Err(ContractError::Unauthorized {}) => {},
        _ => panic!("Must return unauthorized error"),
    }

    // only the original creator can reset the counter
    let auth_info = mock_info("creator", &coins(2, "atom"));
    let msg = ExecuteMsg::Reset { count: 5 };
    let _res = execute(&mut deps, &mock_env(), auth_info, msg).unwrap();

    // should now be 5
    assert_eq!(5, get_count(&deps));
}

#[test]
fn donate() {
    let msg = InstantiateMsg { count: 17, minimal_donation: coin(10, "atom") };
    let info = mock_info("creator", &coins(2, "atom"));
    let (mut deps, _res) = instantiate(info, msg);

    let auth_info = mock_info("creator", &coins(2, "atom"));
    let msg = ExecuteMsg::Donate {};
    let _res = execute(&mut deps, &mock_env(), auth_info, msg);

    // should increase the counter by 1
    assert_eq!(18, get_count(&deps));
}

#[test]
fn count() {
    let msg = InstantiateMsg { count: 1, minimal_donation: coin(10, "atom") };
    let info = mock_info("ADMIN", &[]);
    let (mut deps, _res) = instantiate(info, msg);

    let user_info = mock_info("USER", &coins(1, "atom"));
    let msg = ExecuteMsg::Increment {};
    execute(&mut deps, &mock_env(), user_info, msg).unwrap();
}

#[test]
fn donate_other_denomination_not_counted() {
    let msg = InstantiateMsg { count: 17, minimal_donation: coin(10, "atom") };
    let info = mock_info("creator", &[]);
    let (mut deps, _res) = instantiate(info, msg);

    let info = mock_info("anyone", &coins(25, "btc"));
    let _res = execute(&mut deps, &mock_env(), info, ExecuteMsg::Donate {}).unwrap();

    // no coin carried the threshold denomination, so nothing was counted
    assert_eq!(17, get_count(&deps));
}

#[test]
fn withdraw_sweeps_whole_balance_to_owner() {
    let msg = InstantiateMsg { count: 0, minimal_donation: coin(10, "atom") };
    let info = mock_info("owner", &[]);
    let (mut deps, _res) = instantiate(info, msg);

    // a stranger cannot withdraw
    let env = Env { height: 12345, time: 1571797419, contract_balance: coins(10, "atom") };
    let info = mock_info("sender", &[]);
    let err = execute(&mut deps, &env, info, ExecuteMsg::Withdraw {}).unwrap_err();
    assert_eq!(err, ContractError::Unauthorized {});

    // the owner sweeps whatever the contract holds
    let info = mock_info("owner", &[]);
    let res = execute(&mut deps, &env, info, ExecuteMsg::Withdraw {}).unwrap();
    assert_eq!(1, res.messages.len());
    assert_eq!(
        res.messages[0],
        TransferInstruction::Native { to_address: "owner".to_string(), amount: coins(10, "atom") }
    );
}
