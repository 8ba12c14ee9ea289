use cw_escrow::addr::Addr;
use cw_escrow::contract::{execute, instantiate, query, query_detail};
use cw_escrow::error::ContractError;
use cw_escrow::msg::{CreateMsg, Cw20ReceiveMsg, ExecuteMsg, InstantiateMsg, QueryMsg,
    QueryResponse, ReceiveMsg};
use cw_escrow::state::{GenericBalance, Storage};
use cw_escrow::types::{Attribute, Balance, Coin, Cw20Coin, Cw20CoinVerified, Env, MessageInfo,
    TransferInstruction};

fn coin(amount: u128, denom: &str) -> Coin {
    Coin { denom: denom.to_string(), amount }
}

fn coins(amount: u128, denom: &str) -> Vec<Coin> {
    vec![coin(amount, denom)]
}

fn mock_info(sender: &str, funds: &[Coin]) -> MessageInfo {
    MessageInfo { sender: Addr::unchecked(sender), funds: funds.to_vec() }
}

fn env_at(height: u64) -> Env {
    Env { height, time: 1571797419, contract_balance: vec![] }
}

fn attr(key: &str, value: &str) -> Attribute {
    Attribute { key: key.to_string(), value: value.to_string() }
}

fn fresh_contract() -> Storage {
    let msg = InstantiateMsg { count: 0, minimal_donation: coin(1, "atom") };
    let (storage, _res) = instantiate(mock_info("anyone", &[]), msg);
    storage
}

fn create_msg(id: &str) -> CreateMsg {
    CreateMsg {
        id: id.to_string(),
        arbiter: "arbitrate".to_string(),
        recipient: Some("recd".to_string()),
        title: "title".to_string(),
        description: "description".to_string(),
        end_height: None,
        end_time: None,
        cw20_whitelist: None,
    }
}

#[test]
fn create_duplicate_id_fails_and_preserves_record() {
    let mut deps = fresh_contract();

    let info = mock_info("source", &coins(100, "atom"));
    execute(&mut deps, &env_at(100), info, ExecuteMsg::Create(create_msg("foobar"))).unwrap();

    // a second creation under the same id fails, whoever asks
    let mut other = create_msg("foobar");
    other.title = "other title".to_string();
    let info = mock_info("intruder", &coins(5, "btc"));
    let err = execute(&mut deps, &env_at(100), info, ExecuteMsg::Create(other)).unwrap_err();
    assert_eq!(err, ContractError::AlreadyInUse {});

    // the existing record is untouched
    let details = query_detail(&deps, "foobar".to_string()).unwrap();
    assert_eq!(details.title, "title".to_string());
    assert_eq!(details.source, "source".to_string());
    assert_eq!(details.native_balance, coins(100, "atom"));
}

#[test]
fn create_with_empty_funding_fails() {
    let mut deps = fresh_contract();

    // no coins at all
    let info = mock_info("source", &[]);
    let err = execute(&mut deps, &env_at(100), info, ExecuteMsg::Create(create_msg("a-id")))
        .unwrap_err();
    assert_eq!(err, ContractError::EmptyBalance {});

    // coins that all carry a zero amount count as empty too
    let info = mock_info("source", &[coin(0, "atom"), coin(0, "btc")]);
    let err = execute(&mut deps, &env_at(100), info, ExecuteMsg::Create(create_msg("a-id")))
        .unwrap_err();
    assert_eq!(err, ContractError::EmptyBalance {});
}

#[test]
fn create_with_malformed_arbiter_fails() {
    let mut deps = fresh_contract();

    let mut msg = create_msg("foobar");
    msg.arbiter = "AB".to_string();
    let info = mock_info("source", &coins(100, "atom"));
    let err = execute(&mut deps, &env_at(100), info, ExecuteMsg::Create(msg)).unwrap_err();
    assert_eq!(err, ContractError::AddressValidation {});

    // nothing was stored
    let err = query_detail(&deps, "foobar".to_string()).unwrap_err();
    assert_eq!(err, ContractError::NotFound {});
}

#[test]
fn create_with_malformed_recipient_leaves_recipient_unset() {
    let mut deps = fresh_contract();

    let mut msg = create_msg("foobar");
    msg.recipient = Some("NOT AN ADDRESS".to_string());
    let info = mock_info("source", &coins(100, "atom"));
    execute(&mut deps, &env_at(100), info, ExecuteMsg::Create(msg)).unwrap();

    let details = query_detail(&deps, "foobar".to_string()).unwrap();
    assert_eq!(details.recipient, None);
}

#[test]
fn merge_totals_do_not_depend_on_delta_order() {
    let delta_a = vec![coin(123, "atom"), coin(789, "eth")];
    let delta_b = vec![coin(456, "atom"), coin(12, "btc")];

    let mut one = GenericBalance::default();
    one.add_tokens(Balance::Native(delta_a.clone())).unwrap();
    one.add_tokens(Balance::Native(delta_b.clone())).unwrap();

    let mut two = GenericBalance::default();
    two.add_tokens(Balance::Native(delta_b)).unwrap();
    two.add_tokens(Balance::Native(delta_a)).unwrap();

    let total = |b: &GenericBalance, denom: &str| -> u128 {
        b.native.iter().filter(|c| c.denom == denom).map(|c| c.amount).sum()
    };
    for denom in ["atom", "eth", "btc"] {
        assert_eq!(total(&one, denom), total(&two, denom));
    }
    assert_eq!(total(&one, "atom"), 579);
}

#[test]
fn balance_overflow_is_rejected_and_state_kept() {
    let mut deps = fresh_contract();

    let info = mock_info("source", &coins(100, "atom"));
    execute(&mut deps, &env_at(100), info, ExecuteMsg::Create(create_msg("foobar"))).unwrap();

    // a top-up that would push "atom" past the representable range fails
    let info = mock_info("source", &coins(u128::MAX, "atom"));
    let err = execute(&mut deps, &env_at(100), info, ExecuteMsg::TopUp {
        id: "foobar".to_string(),
    })
        .unwrap_err();
    assert_eq!(err, ContractError::ArithmeticOverflow {});

    // the balance stands as before
    let details = query_detail(&deps, "foobar".to_string()).unwrap();
    assert_eq!(details.native_balance, coins(100, "atom"));
}

#[test]
fn approve_by_non_arbiter_always_unauthorized() {
    let mut deps = fresh_contract();

    // recipient set, not expired: still unauthorized for a stranger
    let info = mock_info("source", &coins(100, "atom"));
    execute(&mut deps, &env_at(100), info, ExecuteMsg::Create(create_msg("one"))).unwrap();
    let info = mock_info("stranger", &[]);
    let err = execute(&mut deps, &env_at(100), info, ExecuteMsg::Approve {
        id: "one".to_string(),
    })
        .unwrap_err();
    assert_eq!(err, ContractError::Unauthorized {});

    // recipient unset and record expired: the caller is checked first
    let mut msg = create_msg("two");
    msg.recipient = None;
    msg.end_height = Some(100);
    let info = mock_info("source", &coins(100, "atom"));
    execute(&mut deps, &env_at(100), info, ExecuteMsg::Create(msg)).unwrap();
    let info = mock_info("stranger", &[]);
    let err = execute(&mut deps, &env_at(101), info, ExecuteMsg::Approve {
        id: "two".to_string(),
    })
        .unwrap_err();
    assert_eq!(err, ContractError::Unauthorized {});
}

#[test]
fn approve_after_expiry_fails_expired() {
    let mut deps = fresh_contract();

    let mut msg = create_msg("foobar");
    msg.end_height = Some(100);
    let info = mock_info("source", &coins(100, "atom"));
    execute(&mut deps, &env_at(50), info, ExecuteMsg::Create(msg)).unwrap();

    // exactly at the bound the record is not expired yet
    let info = mock_info("arbitrate", &[]);
    let res = execute(&mut deps, &env_at(100), info, ExecuteMsg::Approve {
        id: "foobar".to_string(),
    })
        .unwrap();
    assert_eq!(attr("action", "approve"), res.attributes[0]);

    // recreate and approve past the bound
    let mut msg = create_msg("foobar");
    msg.end_height = Some(100);
    let info = mock_info("source", &coins(100, "atom"));
    execute(&mut deps, &env_at(50), info, ExecuteMsg::Create(msg)).unwrap();
    let info = mock_info("arbitrate", &[]);
    let err = execute(&mut deps, &env_at(101), info, ExecuteMsg::Approve {
        id: "foobar".to_string(),
    })
        .unwrap_err();
    assert_eq!(err, ContractError::Expired {});
}

#[test]
fn refund_requires_expiry_and_arbiter() {
    let mut deps = fresh_contract();
    let mut msg = create_msg("foobar");
    msg.end_height = Some(100);
    let info = mock_info("source", &coins(100, "atom"));
    execute(&mut deps, &env_at(50), info, ExecuteMsg::Create(msg)).unwrap();

    // not expired yet: even the arbiter cannot refund
    let info = mock_info("arbitrate", &[]);
    let err = execute(&mut deps, &env_at(99), info, ExecuteMsg::Refund {
        id: "foobar".to_string(),
    })
        .unwrap_err();
    assert_eq!(err, ContractError::Unauthorized {});

    // expired, but a stranger cannot refund either
    let info = mock_info("someoneelse", &[]);
    let err = execute(&mut deps, &env_at(101), info, ExecuteMsg::Refund {
        id: "foobar".to_string(),
    })
        .unwrap_err();
    assert_eq!(err, ContractError::Unauthorized {});

    // expired and called by the arbiter: the funds go back to the source
    let info = mock_info("arbitrate", &[]);
    let res = execute(&mut deps, &env_at(101), info, ExecuteMsg::Refund {
        id: "foobar".to_string(),
    })
        .unwrap();
    assert_eq!(attr("action", "refund"), res.attributes[0]);
    assert_eq!(
        res.messages[0],
        TransferInstruction::Native { to_address: "source".to_string(), amount: coins(100, "atom") }
    );

    // the record is gone afterwards
    let info = mock_info("arbitrate", &[]);
    let err = execute(&mut deps, &env_at(101), info, ExecuteMsg::Refund {
        id: "foobar".to_string(),
    })
        .unwrap_err();
    assert_eq!(err, ContractError::NotFound {});
}

#[test]
fn mixed_asset_lifecycle_preserves_first_seen_order() {
    let mut deps = fresh_contract();

    // create funded with token x and a whitelist naming only token y
    let create = CreateMsg {
        id: "mixed".to_string(),
        arbiter: "arbitrate".to_string(),
        recipient: Some("recd".to_string()),
        title: "title".to_string(),
        description: "description".to_string(),
        end_height: None,
        end_time: None,
        cw20_whitelist: Some(vec!["token-y".to_string()]),
    };
    let receive = Cw20ReceiveMsg {
        sender: "source".to_string(),
        amount: 100,
        msg: ReceiveMsg::Create(create),
    };
    let info = mock_info("token-x", &[]);
    execute(&mut deps, &env_at(100), info, ExecuteMsg::Receive(receive)).unwrap();

    // top up with native coins
    let info = mock_info("source", &coins(40, "atom"));
    execute(&mut deps, &env_at(100), info, ExecuteMsg::TopUp { id: "mixed".to_string() })
        .unwrap();

    // top up with token y
    let receive = Cw20ReceiveMsg {
        sender: "source".to_string(),
        amount: 7,
        msg: ReceiveMsg::TopUp { id: "mixed".to_string() },
    };
    let info = mock_info("token-y", &[]);
    execute(&mut deps, &env_at(100), info, ExecuteMsg::Receive(receive)).unwrap();

    // top up with token x again: it merges into the existing entry
    let receive = Cw20ReceiveMsg {
        sender: "source".to_string(),
        amount: 25,
        msg: ReceiveMsg::TopUp { id: "mixed".to_string() },
    };
    let info = mock_info("token-x", &[]);
    execute(&mut deps, &env_at(100), info, ExecuteMsg::Receive(receive)).unwrap();
    let details = query_detail(&deps, "mixed".to_string()).unwrap();
    assert_eq!(
        details.cw20_balance,
        vec![
            Cw20Coin { address: "token-x".to_string(), amount: 125 },
            Cw20Coin { address: "token-y".to_string(), amount: 7 },
        ]
    );

    // an unlisted token is rejected
    let receive = Cw20ReceiveMsg {
        sender: "source".to_string(),
        amount: 1,
        msg: ReceiveMsg::TopUp { id: "mixed".to_string() },
    };
    let info = mock_info("token-z", &[]);
    let err = execute(&mut deps, &env_at(100), info, ExecuteMsg::Receive(receive)).unwrap_err();
    assert_eq!(err, ContractError::NotInWhitelist {});

    // approval releases the native batch first, then tokens as first seen
    let info = mock_info("arbitrate", &[]);
    let res = execute(&mut deps, &env_at(100), info, ExecuteMsg::Approve {
        id: "mixed".to_string(),
    })
        .unwrap();
    assert_eq!(3, res.messages.len());
    assert_eq!(
        res.messages[0],
        TransferInstruction::Native { to_address: "recd".to_string(), amount: coins(40, "atom") }
    );
    assert_eq!(
        res.messages[1],
        TransferInstruction::Cw20 {
            contract_addr: "token-x".to_string(),
            recipient: "recd".to_string(),
            amount: 125,
        }
    );
    assert_eq!(
        res.messages[2],
        TransferInstruction::Cw20 {
            contract_addr: "token-y".to_string(),
            recipient: "recd".to_string(),
            amount: 7,
        }
    );
}

#[test]
fn list_reports_ids_ascending() {
    let mut deps = fresh_contract();

    for id in ["middle", "aardvark", "zebra"] {
        let info = mock_info("source", &coins(5, "atom"));
        execute(&mut deps, &env_at(100), info, ExecuteMsg::Create(create_msg(id))).unwrap();
    }

    let res = query(&deps, QueryMsg::List {}).unwrap();
    match res {
        QueryResponse::List(list) => {
            assert_eq!(
                list.escrows,
                vec!["aardvark".to_string(), "middle".to_string(), "zebra".to_string()]
            );
        },
        _ => panic!("expected a list answer"),
    }
}

#[test]
fn set_recipient_on_missing_id_fails_not_found() {
    let mut deps = fresh_contract();
    let info = mock_info("arbitrate", &[]);
    let err = execute(&mut deps, &env_at(100), info, ExecuteMsg::SetRecipient {
        id: "ghost".to_string(),
        recipient: "recd".to_string(),
    })
        .unwrap_err();
    assert_eq!(err, ContractError::NotFound {});
}

#[test]
fn instantiate_reports_owner_and_count() {
    let msg = InstantiateMsg { count: -42, minimal_donation: coin(10, "atom") };
    let (_deps, res) = instantiate(mock_info("creator", &[]), msg);
    assert_eq!(
        res.attributes,
        vec![attr("method", "instantiate"), attr("owner", "creator"), attr("count", "-42")]
    );
}

#[test]
fn details_on_missing_id_fails_not_found() {
    let deps = fresh_contract();
    let res = query(&deps, QueryMsg::Details { id: "nothing".to_string() });
    assert_eq!(res.unwrap_err(), ContractError::NotFound {});
}

#[test]
fn token_funding_joins_whitelist_only_once() {
    let mut deps = fresh_contract();

    // funding token already whitelisted: no duplicate entry appears
    let create = CreateMsg {
        id: "once".to_string(),
        arbiter: "arbitrate".to_string(),
        recipient: None,
        title: "title".to_string(),
        description: "description".to_string(),
        end_height: None,
        end_time: None,
        cw20_whitelist: Some(vec!["token-x".to_string()]),
    };
    let receive = Cw20ReceiveMsg {
        sender: "source".to_string(),
        amount: 3,
        msg: ReceiveMsg::Create(create),
    };
    let info = mock_info("token-x", &[]);
    execute(&mut deps, &env_at(100), info, ExecuteMsg::Receive(receive)).unwrap();

    let details = query_detail(&deps, "once".to_string()).unwrap();
    assert_eq!(details.cw20_whitelist, vec!["token-x".to_string()]);
}

#[test]
fn set_recipient_overwrites_unconditionally() {
    let mut deps = fresh_contract();

    // created with a recipient already set
    let info = mock_info("source", &coins(100, "atom"));
    execute(&mut deps, &env_at(100), info, ExecuteMsg::Create(create_msg("foobar"))).unwrap();
    let details = query_detail(&deps, "foobar".to_string()).unwrap();
    assert_eq!(details.recipient, Some("recd".to_string()));

    // the arbiter replaces it without any already-set guard
    let info = mock_info("arbitrate", &[]);
    execute(&mut deps, &env_at(100), info, ExecuteMsg::SetRecipient {
        id: "foobar".to_string(),
        recipient: "newperson".to_string(),
    })
        .unwrap();
    let details = query_detail(&deps, "foobar".to_string()).unwrap();
    assert_eq!(details.recipient, Some("newperson".to_string()));

    // approval pays the replacement
    let info = mock_info("arbitrate", &[]);
    let res = execute(&mut deps, &env_at(100), info, ExecuteMsg::Approve {
        id: "foobar".to_string(),
    })
        .unwrap();
    assert_eq!(
        res.messages[0],
        TransferInstruction::Native {
            to_address: "newperson".to_string(),
            amount: coins(100, "atom"),
        }
    );
}
