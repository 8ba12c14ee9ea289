use vstd::prelude::*;

use crate::addr::{addr_validate, is_valid_addr, Addr};
use crate::error::ContractError;
use crate::types::{Coin, CoinView, Cw20Coin, Cw20CoinView};

verus! {

/// Sets up the counter: its starting value and the donation threshold coin.
pub struct InstantiateMsg {
    pub count: i32,
    pub minimal_donation: Coin,
}

/// Asks for an escrow to be created under a caller-chosen id.
pub struct CreateMsg {
    /// A human-readable name for the escrow, referenced by later calls.
    pub id: String,
    /// Who may set the recipient, approve, and refund.
    pub arbiter: String,
    /// Where approved funds go; may also be assigned later.
    pub recipient: Option<String>,
    pub title: String,
    pub description: String,
    /// Expiry bound on the block height, if set.
    pub end_height: Option<u64>,
    /// Expiry bound on the block time in seconds since epoch, if set.
    pub end_time: Option<u64>,
    /// The token contracts accepted during top-up, besides the funding token.
    pub cw20_whitelist: Option<Vec<String>>,
}

#[verifier::ext_equal]
pub ghost struct CreateMsgView {
    pub id: Seq<char>,
    pub arbiter: Seq<char>,
    pub recipient: Option<Seq<char>>,
    pub title: Seq<char>,
    pub description: Seq<char>,
    pub end_height: Option<u64>,
    pub end_time: Option<u64>,
    pub cw20_whitelist: Option<Seq<Seq<char>>>,
}

impl View for CreateMsg {
    type V = CreateMsgView;

    open spec fn view(&self) -> CreateMsgView {
        CreateMsgView {
            id: self.id@,
            arbiter: self.arbiter@,
            recipient: self.recipient.deep_view(),
            title: self.title@,
            description: self.description@,
            end_height: self.end_height,
            end_time: self.end_time,
            cw20_whitelist: self.cw20_whitelist.deep_view(),
        }
    }
}

/// The whitelist a creation declares; an absent whitelist declares nothing.
pub open spec fn whitelist_strings(m: CreateMsgView) -> Seq<Seq<char>> {
    match m.cw20_whitelist {
        Some(w) => w,
        None => Seq::empty(),
    }
}

/// Every address in the list is well formed.
pub open spec fn all_valid_addrs(w: Seq<Seq<char>>) -> bool {
    forall|i: int| 0 <= i < w.len() ==> is_valid_addr(#[trigger] w[i])
}

impl CreateMsg {
    /// Checks the declared whitelist against the address format and returns
    /// it validated; fails on the first malformed entry.
    #[verifier::loop_isolation(false)]
    pub fn addr_whitelist(&self) -> (r: Result<Vec<Addr>, ContractError>)
        ensures
            r is Ok <==> all_valid_addrs(whitelist_strings(self@)),
            r matches Ok(v) ==> v.deep_view() == whitelist_strings(self@),
            r is Err ==> r == Err::<Vec<Addr>, ContractError>(
                ContractError::AddressValidation {},
            ),
    {
        match &self.cw20_whitelist {
            None => {
                let r: Vec<Addr> = Vec::new();
                assert(r.deep_view() =~= whitelist_strings(self@));
                Ok(r)
            },
            Some(list) => {
                let n: usize = list.len();
                let mut r: Vec<Addr> = Vec::new();
                let mut i: usize = 0;
                while i < n
                    invariant
                        i <= n,
                        r.deep_view() =~= whitelist_strings(self@).subrange(0, i as int),
                        forall|j: int|
                            0 <= j < i ==> is_valid_addr(#[trigger] list.deep_view()[j]),
                    decreases n - i,
                {
                    match addr_validate(list[i].as_str()) {
                        Ok(a) => {
                            r.push(a);
                            assert(r.deep_view() =~= whitelist_strings(self@).subrange(
                                0,
                                i as int + 1,
                            ));
                        },
                        Err(e) => {
                            assert(!is_valid_addr(list.deep_view()[i as int]));
                            return Err(e);
                        },
                    }
                    i = i + 1;
                }
                assert(r.deep_view() =~= whitelist_strings(self@));
                Ok(r)
            },
        }
    }
}

/// The instruction a token contract forwards alongside a token transfer.
pub enum ReceiveMsg {
    Create(CreateMsg),
    /// Adds the transferred token amount to an existing escrow.
    TopUp { id: String },
}

#[verifier::ext_equal]
pub ghost enum ReceiveMsgView {
    Create(CreateMsgView),
    TopUp { id: Seq<char> },
}

impl View for ReceiveMsg {
    type V = ReceiveMsgView;

    open spec fn view(&self) -> ReceiveMsgView {
        match self {
            ReceiveMsg::Create(m) => ReceiveMsgView::Create(m@),
            ReceiveMsg::TopUp { id } => ReceiveMsgView::TopUp { id: id@ },
        }
    }
}

/// A token contract's callback: who originally sent the tokens, how many
/// moved, and the decoded instruction to run under that funding.
pub struct Cw20ReceiveMsg {
    pub sender: String,
    pub amount: u128,
    pub msg: ReceiveMsg,
}

#[verifier::ext_equal]
pub ghost struct Cw20ReceiveMsgView {
    pub sender: Seq<char>,
    pub amount: nat,
    pub msg: ReceiveMsgView,
}

impl View for Cw20ReceiveMsg {
    type V = Cw20ReceiveMsgView;

    open spec fn view(&self) -> Cw20ReceiveMsgView {
        Cw20ReceiveMsgView { sender: self.sender@, amount: self.amount as nat, msg: self.msg@ }
    }
}

/// Every mutating call the contract accepts.
pub enum ExecuteMsg {
    Increment {},
    Reset { count: i32 },
    Donate {},
    Withdraw {},
    Create(CreateMsg),
    /// Assigns the recipient of an escrow; only the arbiter may.
    SetRecipient { id: String, recipient: String },
    /// Adds the attached native coins to an escrow.
    TopUp { id: String },
    /// Releases the whole balance to the recipient; only the arbiter may.
    Approve { id: String },
    /// Returns the whole balance to the source; only the arbiter may, and
    /// only once the record expired.
    Refund { id: String },
    /// A token contract's forwarded instruction.
    Receive(Cw20ReceiveMsg),
}

#[verifier::ext_equal]
pub ghost enum ExecuteMsgView {
    Increment,
    Reset { count: int },
    Donate,
    Withdraw,
    Create(CreateMsgView),
    SetRecipient { id: Seq<char>, recipient: Seq<char> },
    TopUp { id: Seq<char> },
    Approve { id: Seq<char> },
    Refund { id: Seq<char> },
    Receive(Cw20ReceiveMsgView),
}

impl View for ExecuteMsg {
    type V = ExecuteMsgView;

    open spec fn view(&self) -> ExecuteMsgView {
        match self {
            ExecuteMsg::Increment {} => ExecuteMsgView::Increment,
            ExecuteMsg::Reset { count } => ExecuteMsgView::Reset { count: *count as int },
            ExecuteMsg::Donate {} => ExecuteMsgView::Donate,
            ExecuteMsg::Withdraw {} => ExecuteMsgView::Withdraw,
            ExecuteMsg::Create(m) => ExecuteMsgView::Create(m@),
            ExecuteMsg::SetRecipient { id, recipient } => ExecuteMsgView::SetRecipient {
                id: id@,
                recipient: recipient@,
            },
            ExecuteMsg::TopUp { id } => ExecuteMsgView::TopUp { id: id@ },
            ExecuteMsg::Approve { id } => ExecuteMsgView::Approve { id: id@ },
            ExecuteMsg::Refund { id } => ExecuteMsgView::Refund { id: id@ },
            ExecuteMsg::Receive(m) => ExecuteMsgView::Receive(m@),
        }
    }
}

/// Every query the contract answers.
pub enum QueryMsg {
    /// The counter's current value.
    GetCount {},
    /// The ids of all escrows, ascending.
    List {},
    /// The full record under one id.
    Details { id: String },
}

/// The counter's value.
#[derive(Debug, PartialEq)]
pub struct GetCountResponse {
    pub count: i32,
}

/// All registered escrow ids.
#[derive(Debug, PartialEq)]
pub struct ListResponse {
    pub escrows: Vec<String>,
}

/// The full view of one escrow record.
#[derive(Debug, PartialEq)]
pub struct DetailsResponse {
    pub id: String,
    pub arbiter: String,
    pub recipient: Option<String>,
    pub source: String,
    pub title: String,
    pub description: String,
    pub end_height: Option<u64>,
    pub end_time: Option<u64>,
    pub native_balance: Vec<Coin>,
    pub cw20_balance: Vec<Cw20Coin>,
    pub cw20_whitelist: Vec<String>,
}

#[verifier::ext_equal]
pub ghost struct DetailsResponseView {
    pub id: Seq<char>,
    pub arbiter: Seq<char>,
    pub recipient: Option<Seq<char>>,
    pub source: Seq<char>,
    pub title: Seq<char>,
    pub description: Seq<char>,
    pub end_height: Option<u64>,
    pub end_time: Option<u64>,
    pub native_balance: Seq<CoinView>,
    pub cw20_balance: Seq<Cw20CoinView>,
    pub cw20_whitelist: Seq<Seq<char>>,
}

impl View for DetailsResponse {
    type V = DetailsResponseView;

    open spec fn view(&self) -> DetailsResponseView {
        DetailsResponseView {
            id: self.id@,
            arbiter: self.arbiter@,
            recipient: self.recipient.deep_view(),
            source: self.source@,
            title: self.title@,
            description: self.description@,
            end_height: self.end_height,
            end_time: self.end_time,
            native_balance: self.native_balance.deep_view(),
            cw20_balance: self.cw20_balance.deep_view(),
            cw20_whitelist: self.cw20_whitelist.deep_view(),
        }
    }
}

/// One query's answer.
#[derive(Debug, PartialEq)]
pub enum QueryResponse {
    Count(GetCountResponse),
    List(ListResponse),
    Details(DetailsResponse),
}

} // verus!
