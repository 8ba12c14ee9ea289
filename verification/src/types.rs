use vstd::prelude::*;

use crate::addr::Addr;

verus! {

/// An amount of the chain's native currency under one denomination.
#[derive(Debug, PartialEq)]
pub struct Coin {
    pub denom: String,
    pub amount: u128,
}

#[verifier::ext_equal]
pub ghost struct CoinView {
    pub denom: Seq<char>,
    pub amount: nat,
}

impl View for Coin {
    type V = CoinView;

    open spec fn view(&self) -> CoinView {
        CoinView { denom: self.denom@, amount: self.amount as nat }
    }
}

impl DeepView for Coin {
    type V = CoinView;

    open spec fn deep_view(&self) -> CoinView {
        self@
    }
}

impl Clone for Coin {
    fn clone(&self) -> (r: Self)
        ensures
            r == *self,
    {
        Coin { denom: self.denom.clone(), amount: self.amount }
    }
}

/// A token amount together with the textual address of its contract, as
/// reported back to callers.
#[derive(Debug, PartialEq)]
pub struct Cw20Coin {
    pub address: String,
    pub amount: u128,
}

#[verifier::ext_equal]
pub ghost struct Cw20CoinView {
    pub address: Seq<char>,
    pub amount: nat,
}

impl View for Cw20Coin {
    type V = Cw20CoinView;

    open spec fn view(&self) -> Cw20CoinView {
        Cw20CoinView { address: self.address@, amount: self.amount as nat }
    }
}

impl DeepView for Cw20Coin {
    type V = Cw20CoinView;

    open spec fn deep_view(&self) -> Cw20CoinView {
        self@
    }
}

/// A token amount whose contract address has been validated or vouched for.
#[derive(Debug, PartialEq)]
pub struct Cw20CoinVerified {
    pub address: Addr,
    pub amount: u128,
}

impl View for Cw20CoinVerified {
    type V = Cw20CoinView;

    open spec fn view(&self) -> Cw20CoinView {
        Cw20CoinView { address: self.address@, amount: self.amount as nat }
    }
}

impl DeepView for Cw20CoinVerified {
    type V = Cw20CoinView;

    open spec fn deep_view(&self) -> Cw20CoinView {
        self@
    }
}

impl Clone for Cw20CoinVerified {
    fn clone(&self) -> (r: Self)
        ensures
            r == *self,
    {
        Cw20CoinVerified { address: self.address.clone(), amount: self.amount }
    }
}

/// A funding or top-up delta: either the batch of native coins attached to a
/// call, or a single token amount verified by the sending token contract.
#[derive(Debug)]
pub enum Balance {
    Native(Vec<Coin>),
    Cw20(Cw20CoinVerified),
}

#[verifier::ext_equal]
pub ghost enum BalanceView {
    Native(Seq<CoinView>),
    Cw20(Cw20CoinView),
}

impl View for Balance {
    type V = BalanceView;

    open spec fn view(&self) -> BalanceView {
        match self {
            Balance::Native(coins) => BalanceView::Native(coins.deep_view()),
            Balance::Cw20(token) => BalanceView::Cw20(token@),
        }
    }
}

/// Every coin in the sequence carries a zero amount.
pub open spec fn all_amounts_zero(coins: Seq<CoinView>) -> bool {
    forall|i: int| 0 <= i < coins.len() ==> #[trigger] coins[i].amount == 0
}

/// A delta is empty when it carries no value at all: every native amount is
/// zero, or the token amount is zero.
pub open spec fn balance_is_empty(b: BalanceView) -> bool {
    match b {
        BalanceView::Native(coins) => all_amounts_zero(coins),
        BalanceView::Cw20(token) => token.amount == 0,
    }
}

/// True exactly when every coin in the list has a zero amount.
#[verifier::loop_isolation(false)]
pub fn coins_all_zero(coins: &Vec<Coin>) -> (r: bool)
    ensures
        r == all_amounts_zero(coins.deep_view()),
{
    let n: usize = coins.len();
    let mut i: usize = 0;
    while i < n
        invariant
            i <= n,
            forall|j: int| 0 <= j < i ==> #[trigger] coins.deep_view()[j].amount == 0,
        decreases n - i,
    {
        if coins[i].amount > 0 {
            assert(coins.deep_view()[i as int].amount != 0);
            assert(!all_amounts_zero(coins.deep_view()));
            return false;
        }
        i = i + 1;
    }
    true
}

impl Balance {
    pub fn is_empty(&self) -> (r: bool)
        ensures
            r == balance_is_empty(self@),
    {
        match self {
            Balance::Native(coins) => coins_all_zero(coins),
            Balance::Cw20(token) => token.amount == 0,
        }
    }
}

/// The host-provided snapshot under which a call executes: the block height,
/// the block time in seconds since the epoch, and the contract's own native
/// bank balance.
pub struct Env {
    pub height: u64,
    pub time: u64,
    pub contract_balance: Vec<Coin>,
}

/// Who makes the call and which native coins ride along with it.
pub struct MessageInfo {
    pub sender: Addr,
    pub funds: Vec<Coin>,
}

/// One key/value pair an operation reports back to its caller.
#[derive(Debug, PartialEq)]
pub struct Attribute {
    pub key: String,
    pub value: String,
}

#[verifier::ext_equal]
pub ghost struct AttributeView {
    pub key: Seq<char>,
    pub value: Seq<char>,
}

impl View for Attribute {
    type V = AttributeView;

    open spec fn view(&self) -> AttributeView {
        AttributeView { key: self.key@, value: self.value@ }
    }
}

impl DeepView for Attribute {
    type V = AttributeView;

    open spec fn deep_view(&self) -> AttributeView {
        self@
    }
}

/// One outbound transfer the host must execute on the contract's behalf.
#[derive(Debug, PartialEq)]
pub enum TransferInstruction {
    /// One batched transfer of native coins to an address.
    Native { to_address: String, amount: Vec<Coin> },
    /// One token transfer, to be executed by the token's own contract.
    Cw20 { contract_addr: String, recipient: String, amount: u128 },
}

#[verifier::ext_equal]
pub ghost enum TransferInstructionView {
    Native { to_address: Seq<char>, amount: Seq<CoinView> },
    Cw20 { contract_addr: Seq<char>, recipient: Seq<char>, amount: nat },
}

impl View for TransferInstruction {
    type V = TransferInstructionView;

    open spec fn view(&self) -> TransferInstructionView {
        match self {
            TransferInstruction::Native { to_address, amount } => TransferInstructionView::Native {
                to_address: to_address@,
                amount: amount.deep_view(),
            },
            TransferInstruction::Cw20 { contract_addr, recipient, amount } => (
            TransferInstructionView::Cw20 {
                contract_addr: contract_addr@,
                recipient: recipient@,
                amount: *amount as nat,
            }),
        }
    }
}

impl DeepView for TransferInstruction {
    type V = TransferInstructionView;

    open spec fn deep_view(&self) -> TransferInstructionView {
        self@
    }
}

/// What a successful operation reports: attributes naming the action and its
/// parameters, and the outbound transfers the host must execute.
#[derive(Debug, PartialEq)]
pub struct Response {
    pub attributes: Vec<Attribute>,
    pub messages: Vec<TransferInstruction>,
}

#[verifier::ext_equal]
pub ghost struct ResponseView {
    pub attributes: Seq<AttributeView>,
    pub messages: Seq<TransferInstructionView>,
}

impl View for Response {
    type V = ResponseView;

    open spec fn view(&self) -> ResponseView {
        ResponseView { attributes: self.attributes.deep_view(), messages: self.messages.deep_view() }
    }
}

/// Builds one attribute from a literal key and an owned value.
pub fn attr(key: &str, value: String) -> (r: Attribute)
    ensures
        r@ == (AttributeView { key: key@, value: value@ }),
{
    Attribute { key: key.to_owned(), value }
}

/// Copies a native coin list, preserving its view.
pub fn clone_coins(coins: &Vec<Coin>) -> (r: Vec<Coin>)
    ensures
        r@ == coins@,
{
    let n: usize = coins.len();
    let mut r: Vec<Coin> = Vec::new();
    let mut i: usize = 0;
    while i < n
        invariant
            i <= n,
            n == coins@.len(),
            r@ =~= coins@.subrange(0, i as int),
        decreases n - i,
    {
        r.push(coins[i].clone());
        i = i + 1;
    }
    assert(r@ =~= coins@);
    r
}

} // verus!
