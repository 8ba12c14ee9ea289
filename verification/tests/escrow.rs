use cw_escrow::addr::Addr;
use cw_escrow::contract::{execute, instantiate, query_detail};
use cw_escrow::error::ContractError;
use cw_escrow::msg::{CreateMsg, Cw20ReceiveMsg, DetailsResponse, ExecuteMsg, InstantiateMsg,
    ReceiveMsg};
use cw_escrow::state::{GenericBalance, Storage};
use cw_escrow::types::{Attribute, Balance, Coin, Cw20Coin, Cw20CoinVerified, Env, MessageInfo,
    TransferInstruction};

fn coin(amount: u128, denom: &str) -> Coin {
    Coin { denom: denom.to_string(), amount }
}

fn coins(amount: u128, denom: &str) -> Vec<Coin> {
    vec![coin(amount, denom)]
}

fn mock_info(sender: &str, funds: &[Coin]) -> MessageInfo {
    MessageInfo { sender: Addr::unchecked(sender), funds: funds.to_vec() }
}

fn mock_env() -> Env {
    Env { height: 12345, time: 1571797419, contract_balance: vec![] }
}

fn attr(key: &str, value: &str) -> Attribute {
    Attribute { key: key.to_string(), value: value.to_string() }
}

fn fresh_contract() -> Storage {
    let instantiate_msg = InstantiateMsg { count: 17, minimal_donation: coin(10, "atom") };
    let info = mock_info("anyone", &[]);
    let (storage, res) = instantiate(info, instantiate_msg);
    assert_eq!(0, res.messages.len());
    storage
}

#[test]
fn set_recipient_after_creation() {
    let mut deps = fresh_contract();

    // create an escrow
    let create = CreateMsg {
        id: "foobar".to_string(),
        arbiter: String::from("arbitrate"),
        recipient: None,
        title: "some_title".to_string(),
        end_time: None,
        end_height: Some(123456),
        cw20_whitelist: None,
        description: "some_description".to_string(),
    };
    let sender = String::from("source");
    let balance = coins(100, "tokens");
    let info = mock_info(&sender, &balance);
    let msg = ExecuteMsg::Create(clone_create(&create));
    let res = execute(&mut deps, &mock_env(), info, msg).unwrap();
    assert_eq!(0, res.messages.len());
    assert_eq!(attr("action", "create"), res.attributes[0]);

    // ensure the details are what we expect
    let details = query_detail(&deps, "foobar".to_string()).unwrap();
    assert_eq!(
        details,
        DetailsResponse {
            id: "foobar".to_string(),
            arbiter: String::from("arbitrate"),
            recipient: None,
            source: String::from("source"),
            title: "some_title".to_string(),
            description: "some_description".to_string(),
            end_height: Some(123456),
            end_time: None,
            native_balance: balance.clone(),
            cw20_balance: vec![],
            cw20_whitelist: vec![],
        }
    );

    // approve it, should fail as we have not set a recipient
    let id = create.id.clone();
    let info = mock_info(&create.arbiter, &[]);
    let res = execute(&mut deps, &mock_env(), info, ExecuteMsg::Approve { id });
    match res {
        Err(ContractError::RecipientNotSet {}) => {},
        _ => panic!("Expect recipient not set error"),
    }

    // setting the recipient as someone else than the arbiter fails
    let msg = ExecuteMsg::SetRecipient { id: create.id.clone(), recipient: "recp".to_string() };
    let info = mock_info("someoneelse", &[]);
    let res = execute(&mut deps, &mock_env(), info, msg);
    match res {
        Err(ContractError::Unauthorized {}) => {},
        _ => panic!("Expect unauthorized error"),
    }

    // setting the recipient as the arbiter works
    let msg = ExecuteMsg::SetRecipient { id: create.id.clone(), recipient: "recp".to_string() };
    let info = mock_info(&create.arbiter, &[]);
    let res = execute(&mut deps, &mock_env(), info, msg).unwrap();
    assert_eq!(res.messages.len(), 0);
    assert_eq!(
        res.attributes,
        vec![attr("action", "set_recipient"), attr("id", &create.id), attr("recipient", "recp")]
    );

    // approve now works, towards "recp"
    let id = create.id.clone();
    let info = mock_info(&create.arbiter, &[]);
    let res = execute(&mut deps, &mock_env(), info, ExecuteMsg::Approve { id }).unwrap();
    assert_eq!(1, res.messages.len());
    assert_eq!(attr("action", "approve"), res.attributes[0]);
    assert_eq!(
        res.messages[0],
        TransferInstruction::Native { to_address: "recp".to_string(), amount: balance }
    );
}

fn clone_create(c: &CreateMsg) -> CreateMsg {
    CreateMsg {
        id: c.id.clone(),
        arbiter: c.arbiter.clone(),
        recipient: c.recipient.clone(),
        title: c.title.clone(),
        description: c.description.clone(),
        end_height: c.end_height,
        end_time: c.end_time,
        cw20_whitelist: c.cw20_whitelist.clone(),
    }
}

#[test]
fn add_tokens_proper() {
    let mut tokens = GenericBalance::default();
    tokens
        .add_tokens(Balance::Native(vec![coin(123, "atom"), coin(789, "eth")]))
        .unwrap();
    tokens
        .add_tokens(Balance::Native(vec![coin(456, "atom"), coin(12, "btc")]))
        .unwrap();
    assert_eq!(tokens.native, vec![coin(579, "atom"), coin(789, "eth"), coin(12, "btc")]);
}

#[test]
fn add_cw_tokens_proper() {
    let mut tokens = GenericBalance::default();
    let bar_token = Addr::unchecked("bar_token");
    let foo_token = Addr::unchecked("foo_token");
    tokens
        .add_tokens(Balance::Cw20(Cw20CoinVerified { address: foo_token.clone(), amount: 12345 }))
        .unwrap();
    tokens
        .add_tokens(Balance::Cw20(Cw20CoinVerified { address: bar_token.clone(), amount: 777 }))
        .unwrap();
    tokens
        .add_tokens(Balance::Cw20(Cw20CoinVerified { address: foo_token.clone(), amount: 23400 }))
        .unwrap();
    assert_eq!(
        tokens.cw20,
        vec![
            Cw20CoinVerified { address: foo_token, amount: 35745 },
            Cw20CoinVerified { address: bar_token, amount: 777 },
        ]
    );
}

#[test]
fn top_up_mixed_tokens() {
    let mut deps = fresh_contract();

    // only accept these tokens
    let whitelist = vec![String::from("bar_token"), String::from("foo_token")];

    // create an escrow with 2 native tokens
    let create = CreateMsg {
        id: "foobar".to_string(),
        arbiter: String::from("arbitrate"),
        recipient: Some(String::from("recd")),
        title: "some_title".to_string(),
        end_time: None,
        end_height: None,
        cw20_whitelist: Some(whitelist),
        description: "some_description".to_string(),
    };
    let sender = String::from("source");
    let balance = vec![coin(100, "fee"), coin(200, "stake")];
    let info = mock_info(&sender, &balance);
    let msg = ExecuteMsg::Create(clone_create(&create));
    let res = execute(&mut deps, &mock_env(), info, msg).unwrap();
    assert_eq!(0, res.messages.len());
    assert_eq!(attr("action", "create"), res.attributes[0]);

    // top it up with 2 more native tokens
    let extra_native = vec![coin(250, "random"), coin(300, "stake")];
    let info = mock_info(&sender, &extra_native);
    let top_up = ExecuteMsg::TopUp { id: create.id.clone() };
    let res = execute(&mut deps, &mock_env(), info, top_up).unwrap();
    assert_eq!(0, res.messages.len());
    assert_eq!(attr("action", "top_up"), res.attributes[0]);

    // top up with one foreign token
    let bar_token = String::from("bar_token");
    let top_up = ExecuteMsg::Receive(Cw20ReceiveMsg {
        sender: String::from("random"),
        amount: 7890,
        msg: ReceiveMsg::TopUp { id: create.id.clone() },
    });
    let info = mock_info(&bar_token, &[]);
    let res = execute(&mut deps, &mock_env(), info, top_up).unwrap();
    assert_eq!(0, res.messages.len());
    assert_eq!(attr("action", "top_up"), res.attributes[0]);

    // top up with a foreign token not on the whitelist fails
    let baz_token = String::from("baz_token");
    let top_up = ExecuteMsg::Receive(Cw20ReceiveMsg {
        sender: String::from("random"),
        amount: 7890,
        msg: ReceiveMsg::TopUp { id: create.id.clone() },
    });
    let info = mock_info(&baz_token, &[]);
    let err = execute(&mut deps, &mock_env(), info, top_up).unwrap_err();
    assert_eq!(err, ContractError::NotInWhitelist {});

    // top up with the second foreign token
    let foo_token = String::from("foo_token");
    let top_up = ExecuteMsg::Receive(Cw20ReceiveMsg {
        sender: String::from("random"),
        amount: 888,
        msg: ReceiveMsg::TopUp { id: create.id.clone() },
    });
    let info = mock_info(&foo_token, &[]);
    let res = execute(&mut deps, &mock_env(), info, top_up).unwrap();
    assert_eq!(0, res.messages.len());
    assert_eq!(attr("action", "top_up"), res.attributes[0]);

    // approve it
    let id = create.id.clone();
    let info = mock_info(&create.arbiter, &[]);
    let res = execute(&mut deps, &mock_env(), info, ExecuteMsg::Approve { id }).unwrap();
    assert_eq!(attr("action", "approve"), res.attributes[0]);
    assert_eq!(3, res.messages.len());

    // first message releases all native coins
    assert_eq!(
        res.messages[0],
        TransferInstruction::Native {
            to_address: create.recipient.clone().unwrap(),
            amount: vec![coin(100, "fee"), coin(500, "stake"), coin(250, "random")],
        }
    );

    // second one releases the bar token
    assert_eq!(
        res.messages[1],
        TransferInstruction::Cw20 {
            contract_addr: bar_token,
            recipient: create.recipient.clone().unwrap(),
            amount: 7890,
        }
    );

    // third one releases the foo token
    assert_eq!(
        res.messages[2],
        TransferInstruction::Cw20 {
            contract_addr: foo_token,
            recipient: create.recipient.unwrap(),
            amount: 888,
        }
    );
}

#[test]
pub fn happy_path_native() {
    let mut deps = fresh_contract();

    let create = CreateMsg {
        id: "foobar".to_string(),
        arbiter: String::from("arbitrate"),
        recipient: Some(String::from("recd")),
        title: "some title".to_string(),
        description: "some description".to_string(),
        end_height: Some(123456),
        end_time: None,
        cw20_whitelist: None,
    };
    let sender = String::from("source");
    let balance = coins(100, "otms");
    let info = mock_info(&sender, &balance);
    let msg = ExecuteMsg::Create(clone_create(&create));
    let res = execute(&mut deps, &mock_env(), info, msg).unwrap();
    assert_eq!(0, res.messages.len());
    assert_eq!(attr("action", "create"), res.attributes[0]);

    let details = query_detail(&deps, "foobar".to_string()).unwrap();
    assert_eq!(
        details,
        DetailsResponse {
            id: "foobar".to_string(),
            arbiter: String::from("arbitrate"),
            recipient: Some(String::from("recd")),
            source: String::from("source"),
            title: "some title".to_string(),
            description: "some description".to_string(),
            end_height: Some(123456),
            end_time: None,
            native_balance: balance.clone(),
            cw20_balance: vec![],
            cw20_whitelist: vec![],
        }
    );

    // approve it
    let id = create.id.clone();
    let info = mock_info(&create.arbiter, &[]);
    let res = execute(&mut deps, &mock_env(), info, ExecuteMsg::Approve { id }).unwrap();
    assert_eq!(1, res.messages.len());
    assert_eq!(attr("action", "approve"), res.attributes[0]);
    assert_eq!(
        res.messages[0],
        TransferInstruction::Native { to_address: create.recipient.unwrap(), amount: balance }
    );

    // second attempt fails (not found)
    let id = create.id.clone();
    let info = mock_info(&create.arbiter, &[]);
    let err = execute(&mut deps, &mock_env(), info, ExecuteMsg::Approve { id }).unwrap_err();
    assert!(matches!(err, ContractError::NotFound {}));
}

#[test]
pub fn happy_path_cw20() {
    let mut deps = fresh_contract();

    // create an escrow via a token contract's callback
    let create = CreateMsg {
        id: "foobar".to_string(),
        arbiter: String::from("arbitrate"),
        recipient: Some(String::from("recd")),
        title: "Some Title".to_string(),
        description: "some description".to_string(),
        end_height: None,
        end_time: None,
        cw20_whitelist: Some(vec![String::from("other-token")]),
    };
    let receive = Cw20ReceiveMsg {
        sender: String::from("source"),
        amount: 100,
        msg: ReceiveMsg::Create(clone_create(&create)),
    };
    let token_contract = String::from("my-cw20-token");
    let info = mock_info(&token_contract, &[]);
    let msg = ExecuteMsg::Receive(receive);
    let res = execute(&mut deps, &mock_env(), info, msg).unwrap();
    assert_eq!(0, res.messages.len());
    assert_eq!(attr("action", "create"), res.attributes[0]);

    // ensure the whitelist is what we expect
    let details = query_detail(&deps, "foobar".to_string()).unwrap();
    assert_eq!(
        details,
        DetailsResponse {
            id: "foobar".to_string(),
            arbiter: String::from("arbitrate"),
            recipient: Some(String::from("recd")),
            source: String::from("source"),
            title: "Some Title".to_string(),
            description: "some description".to_string(),
            end_height: None,
            end_time: None,
            native_balance: vec![],
            cw20_balance: vec![Cw20Coin { address: String::from("my-cw20-token"), amount: 100 }],
            cw20_whitelist: vec![String::from("other-token"), String::from("my-cw20-token")],
        }
    );

    // approve it
    let id = create.id.clone();
    let info = mock_info(&create.arbiter, &[]);
    let res = execute(&mut deps, &mock_env(), info, ExecuteMsg::Approve { id }).unwrap();
    assert_eq!(1, res.messages.len());
    assert_eq!(attr("action", "approve"), res.attributes[0]);
    assert_eq!(
        res.messages[0],
        TransferInstruction::Cw20 {
            contract_addr: token_contract,
            recipient: create.recipient.unwrap(),
            amount: 100,
        }
    );

    // second attempt fails (not found)
    let id = create.id.clone();
    let info = mock_info(&create.arbiter, &[]);
    let err = execute(&mut deps, &mock_env(), info, ExecuteMsg::Approve { id }).unwrap_err();
    assert!(matches!(err, ContractError::NotFound {}));
}
