use vstd::prelude::*;

use crate::addr::{addr_validate, is_valid_addr, Addr};
use crate::decimal::{dec_int, i32_to_dec};
use crate::error::ContractError;
use crate::msg::{all_valid_addrs, whitelist_strings, CreateMsg, CreateMsgView, Cw20ReceiveMsg,
    Cw20ReceiveMsgView, DetailsResponse, DetailsResponseView, ExecuteMsg, ExecuteMsgView,
    GetCountResponse, InstantiateMsg, ListResponse, QueryMsg, QueryResponse, ReceiveMsg,
    ReceiveMsgView};
use crate::state::{add_balance, add_balance_overflows, addr_list_contains, addr_list_has,
    all_escrow_ids, spec_is_expired, store_contains, store_get, store_ids, store_insert,
    store_remove, store_update, Escrow, EscrowEntryView, EscrowStore, EscrowView, GenericBalance,
    GenericBalanceView, State, StateView, Storage};
use crate::types::{attr, balance_is_empty, clone_coins, Attribute, AttributeView, Balance,
    BalanceView, Coin, CoinView, Cw20Coin, Cw20CoinVerified, Cw20CoinView, Env, MessageInfo,
    Response, ResponseView, TransferInstruction, TransferInstructionView};

verus! {

/// The whole persistent state, as mathematics.
#[verifier::ext_equal]
pub ghost struct StorageView {
    pub state: StateView,
    pub minimal_donation: CoinView,
    pub escrows: Seq<EscrowEntryView>,
}

impl View for Storage {
    type V = StorageView;

    open spec fn view(&self) -> StorageView {
        StorageView {
            state: self.state@,
            minimal_donation: self.minimal_donation@,
            escrows: self.escrows@,
        }
    }
}

/// Relates one escrow operation's specified outcome to what an executable
/// function did: on success the store and the response are exactly the
/// specified ones; on failure the specified error comes back and the store
/// stands as before.
pub open spec fn matches_escrow_outcome(
    outcome: Result<(Seq<EscrowEntryView>, ResponseView), ContractError>,
    old_escrows: Seq<EscrowEntryView>,
    new_escrows: Seq<EscrowEntryView>,
    r: Result<Response, ContractError>,
) -> bool {
    match outcome {
        Ok((s2, resp)) => r matches Ok(rr) && rr@ == resp && new_escrows == s2,
        Err(e) => r == Err::<Response, ContractError>(e) && new_escrows == old_escrows,
    }
}

/// The same relation for an operation on the counter state.
pub open spec fn matches_state_outcome(
    outcome: Result<(StateView, ResponseView), ContractError>,
    old_state: StateView,
    new_state: StateView,
    r: Result<Response, ContractError>,
) -> bool {
    match outcome {
        Ok((s2, resp)) => r matches Ok(rr) && rr@ == resp && new_state == s2,
        Err(e) => r == Err::<Response, ContractError>(e) && new_state == old_state,
    }
}

/// The same relation for the whole persistent state.
pub open spec fn matches_storage_outcome(
    outcome: Result<(StorageView, ResponseView), ContractError>,
    old_storage: StorageView,
    new_storage: StorageView,
    r: Result<Response, ContractError>,
) -> bool {
    match outcome {
        Ok((s2, resp)) => r matches Ok(rr) && rr@ == resp && new_storage == s2,
        Err(e) => r == Err::<Response, ContractError>(e) && new_storage == old_storage,
    }
}

/// One attribute, as mathematics.
pub open spec fn attr_view(key: Seq<char>, value: Seq<char>) -> AttributeView {
    AttributeView { key: key, value: value }
}

/// A response carrying attributes only.
pub open spec fn attrs_only(attributes: Seq<AttributeView>) -> ResponseView {
    ResponseView { attributes: attributes, messages: Seq::empty() }
}

/// What `increment` does: the counter grows by one; a counter at the
/// representable maximum reports `ArithmeticOverflow` instead.
pub open spec fn spec_increment(state: StateView) -> Result<
    (StateView, ResponseView),
    ContractError,
> {
    if state.count + 1 > i32::MAX {
        Err(ContractError::ArithmeticOverflow {})
    } else {
        Ok(
            (
                StateView { count: state.count + 1, owner: state.owner },
                attrs_only(seq![attr_view("action"@, "increment"@)]),
            ),
        )
    }
}

/// What `reset` does: only the owner may set the counter to a chosen value.
pub open spec fn spec_reset(state: StateView, sender: Seq<char>, count: int) -> Result<
    (StateView, ResponseView),
    ContractError,
> {
    if sender != state.owner {
        Err(ContractError::Unauthorized {})
    } else {
        Ok(
            (
                StateView { count: count, owner: state.owner },
                attrs_only(seq![attr_view("action"@, "reset"@)]),
            ),
        )
    }
}

/// Whether some attached coin carries the threshold's denomination.
pub open spec fn funds_have_denom(funds: Seq<CoinView>, denom: Seq<char>) -> bool {
    exists|i: int| 0 <= i < funds.len() && (#[trigger] funds[i]).denom == denom
}

/// What `donate` does: the counter grows by one exactly when some attached
/// coin carries the threshold denomination; a counter at the representable
/// maximum then reports `ArithmeticOverflow`.
pub open spec fn spec_donate(
    state: StateView,
    threshold_denom: Seq<char>,
    funds: Seq<CoinView>,
) -> Result<(StateView, ResponseView), ContractError> {
    let counted = funds_have_denom(funds, threshold_denom);
    if counted && state.count + 1 > i32::MAX {
        Err(ContractError::ArithmeticOverflow {})
    } else {
        Ok(
            (
                StateView {
                    count: if counted {
                        state.count + 1
                    } else {
                        state.count
                    },
                    owner: state.owner,
                },
                attrs_only(seq![attr_view("action"@, "donate"@)]),
            ),
        )
    }
}

/// What `withdraw` does: only the owner may sweep the contract's whole bank
/// balance to itself, as one batched native transfer.
pub open spec fn spec_withdraw(
    state: StateView,
    sender: Seq<char>,
    contract_balance: Seq<CoinView>,
) -> Result<(StateView, ResponseView), ContractError> {
    if sender != state.owner {
        Err(ContractError::Unauthorized {})
    } else {
        Ok(
            (
                state,
                ResponseView {
                    attributes: seq![
                        attr_view("action"@, "withdraw"@),
                        attr_view("sender"@, sender),
                    ],
                    messages: seq![
                        TransferInstructionView::Native {
                            to_address: sender,
                            amount: contract_balance,
                        },
                    ],
                },
            ),
        )
    }
}

/// Sets the contract up: the counter starts at the given value under the
/// caller as owner, the donation threshold is recorded, and no escrows exist.
pub fn instantiate(info: MessageInfo, msg: InstantiateMsg) -> (r: (Storage, Response))
    ensures
        r.0.wf(),
        r.0@.state == (StateView { count: msg.count as int, owner: info.sender@ }),
        r.0@.minimal_donation == msg.minimal_donation@,
        r.0@.escrows == Seq::<EscrowEntryView>::empty(),
        r.1@ == (ResponseView {
            attributes: seq![
                attr_view("method"@, "instantiate"@),
                attr_view("owner"@, info.sender@),
                attr_view("count"@, dec_int(msg.count as int)),
            ],
            messages: Seq::empty(),
        }),
{
    let owner_text: String = info.sender.as_str().to_owned();
    let storage = Storage {
        state: State { count: msg.count, owner: info.sender },
        minimal_donation: msg.minimal_donation,
        escrows: EscrowStore::new(),
    };
    let mut attributes: Vec<Attribute> = Vec::new();
    attributes.push(attr("method", "instantiate".to_owned()));
    attributes.push(attr("owner", owner_text));
    attributes.push(attr("count", i32_to_dec(msg.count)));
    let response = Response { attributes, messages: Vec::new() };
    proof {
        assert(storage@.escrows =~= Seq::<EscrowEntryView>::empty());
        assert(response@.attributes =~= seq![
            attr_view("method"@, "instantiate"@),
            attr_view("owner"@, info.sender@),
            attr_view("count"@, dec_int(msg.count as int)),
        ]);
        assert(response@.messages =~= Seq::<TransferInstructionView>::empty());
    }
    (storage, response)
}

/// Builds the one-attribute response naming an action.
fn action_response(action: &str) -> (r: Response)
    ensures
        r@ == attrs_only(seq![attr_view("action"@, action@)]),
{
    let mut attributes: Vec<Attribute> = Vec::new();
    attributes.push(attr("action", action.to_owned()));
    let response = Response { attributes, messages: Vec::new() };
    proof {
        assert(response@.attributes =~= seq![attr_view("action"@, action@)]);
        assert(response@.messages =~= Seq::<TransferInstructionView>::empty());
    }
    response
}

/// Decides `funds_have_denom` on a coin list.
#[verifier::loop_isolation(false)]
fn coins_have_denom(coins: &Vec<Coin>, denom: &String) -> (r: bool)
    ensures
        r == funds_have_denom(coins.deep_view(), denom@),
{
    let n: usize = coins.len();
    let mut i: usize = 0;
    while i < n
        invariant
            i <= n,
            forall|j: int| 0 <= j < i ==> (#[trigger] coins.deep_view()[j]).denom != denom@,
        decreases n - i,
    {
        if coins[i].denom == *denom {
            assert(coins.deep_view()[i as int].denom == denom@);
            return true;
        }
        assert(coins.deep_view()[i as int].denom != denom@);
        i = i + 1;
    }
    false
}

/// Raises the counter by one.
pub fn increment(storage: &mut Storage) -> (r: Result<Response, ContractError>)
    ensures
        final(storage)@.escrows == old(storage)@.escrows,
        final(storage)@.minimal_donation == old(storage)@.minimal_donation,
        old(storage).wf() ==> final(storage).wf(),
        matches_state_outcome(
            spec_increment(old(storage)@.state),
            old(storage)@.state,
            final(storage)@.state,
            r,
        ),
{
    match storage.state.count.checked_add(1) {
        None => Err(ContractError::ArithmeticOverflow {}),
        Some(next) => {
            storage.state.count = next;
            Ok(action_response("increment"))
        },
    }
}

/// Resets the counter to a chosen value; only the owner may.
pub fn reset(storage: &mut Storage, info: MessageInfo, count: i32) -> (r: Result<
    Response,
    ContractError,
>)
    ensures
        final(storage)@.escrows == old(storage)@.escrows,
        final(storage)@.minimal_donation == old(storage)@.minimal_donation,
        old(storage).wf() ==> final(storage).wf(),
        matches_state_outcome(
            spec_reset(old(storage)@.state, info.sender@, count as int),
            old(storage)@.state,
            final(storage)@.state,
            r,
        ),
{
    if !(info.sender == storage.state.owner) {
        return Err(ContractError::Unauthorized {});
    }
    storage.state.count = count;
    Ok(action_response("reset"))
}

/// Counts a donation: the counter grows by one when the attached funds carry
/// the threshold denomination, whatever their amounts.
pub fn donate(storage: &mut Storage, info: MessageInfo) -> (r: Result<Response, ContractError>)
    ensures
        final(storage)@.escrows == old(storage)@.escrows,
        final(storage)@.minimal_donation == old(storage)@.minimal_donation,
        old(storage).wf() ==> final(storage).wf(),
        matches_state_outcome(
            spec_donate(
                old(storage)@.state,
                old(storage)@.minimal_donation.denom,
                info.funds.deep_view(),
            ),
            old(storage)@.state,
            final(storage)@.state,
            r,
        ),
{
    if coins_have_denom(&info.funds, &storage.minimal_donation.denom) {
        match storage.state.count.checked_add(1) {
            None => {
                return Err(ContractError::ArithmeticOverflow {});
            },
            Some(next) => {
                storage.state.count = next;
            },
        }
    }
    Ok(action_response("donate"))
}

/// Sweeps the contract's whole bank balance to the owner; only the owner may.
pub fn withdraw(storage: &mut Storage, env: &Env, info: MessageInfo) -> (r: Result<
    Response,
    ContractError,
>)
    ensures
        final(storage)@ == old(storage)@,
        old(storage).wf() ==> final(storage).wf(),
        matches_state_outcome(
            spec_withdraw(old(storage)@.state, info.sender@, env.contract_balance.deep_view()),
            old(storage)@.state,
            final(storage)@.state,
            r,
        ),
{
    if !(info.sender == storage.state.owner) {
        return Err(ContractError::Unauthorized {});
    }
    let mut attributes: Vec<Attribute> = Vec::new();
    attributes.push(attr("action", "withdraw".to_owned()));
    attributes.push(attr("sender", info.sender.as_str().to_owned()));
    let mut messages: Vec<TransferInstruction> = Vec::new();
    messages.push(TransferInstruction::Native {
        to_address: info.sender.into_string(),
        amount: clone_coins(&env.contract_balance),
    });
    let response = Response { attributes, messages };
    proof {
        assert(response@.attributes =~= seq![
            attr_view("action"@, "withdraw"@),
            attr_view("sender"@, info.sender@),
        ]);
        assert(response@.messages =~= seq![
            TransferInstructionView::Native {
                to_address: info.sender@,
                amount: env.contract_balance.deep_view(),
            },
        ]);
    }
    Ok(response)
}

/// A balance holding nothing.
pub open spec fn empty_balance_view() -> GenericBalanceView {
    GenericBalanceView { native: Seq::empty(), cw20: Seq::empty() }
}

/// The record a successful creation stores: the metadata and expiry bounds
/// from the message, the caller as source, a recipient only when the given
/// string is well formed, the funding merged into an empty balance, and the
/// whitelist extended by a funding token not already on it.
pub open spec fn spec_escrow_of(
    msg: CreateMsgView,
    balance: BalanceView,
    sender: Seq<char>,
) -> EscrowView {
    let wl = whitelist_strings(msg);
    let wl_full = match balance {
        BalanceView::Cw20(t) => if addr_list_has(wl, t.address) {
            wl
        } else {
            wl.push(t.address)
        },
        BalanceView::Native(_) => wl,
    };
    EscrowView {
        arbiter: msg.arbiter,
        recipient: match msg.recipient {
            Some(rcpt) => if is_valid_addr(rcpt) {
                Some(rcpt)
            } else {
                None
            },
            None => None,
        },
        source: sender,
        title: msg.title,
        description: msg.description,
        end_height: msg.end_height,
        end_time: msg.end_time,
        balance: add_balance(empty_balance_view(), balance),
        cw20_whitelist: wl_full,
    }
}

/// What `create` does: an empty funding is rejected first; then the declared
/// whitelist and the arbiter must be well-formed addresses; then the funding
/// must merge without overflow; then the id must be free.  On success the new
/// record stands under the id and the response names the action and the id.
pub open spec fn spec_create(
    escrows: Seq<EscrowEntryView>,
    msg: CreateMsgView,
    balance: BalanceView,
    sender: Seq<char>,
) -> Result<(Seq<EscrowEntryView>, ResponseView), ContractError> {
    if balance_is_empty(balance) {
        Err(ContractError::EmptyBalance {})
    } else if !all_valid_addrs(whitelist_strings(msg)) || !is_valid_addr(msg.arbiter) {
        Err(ContractError::AddressValidation {})
    } else if add_balance_overflows(empty_balance_view(), balance) {
        Err(ContractError::ArithmeticOverflow {})
    } else if store_contains(escrows, msg.id) {
        Err(ContractError::AlreadyInUse {})
    } else {
        Ok(
            (
                store_insert(escrows, msg.id, spec_escrow_of(msg, balance, sender)),
                attrs_only(seq![attr_view("action"@, "create"@), attr_view("id"@, msg.id)]),
            ),
        )
    }
}

/// Creates an escrow under a fresh id, funded by `balance` and owned by
/// `sender` as source.  A malformed recipient string is treated as no
/// recipient; every other malformed address fails the call.
pub fn execute_create(
    storage: &mut Storage,
    msg: CreateMsg,
    balance: Balance,
    sender: &Addr,
) -> (r: Result<Response, ContractError>)
    requires
        old(storage).wf(),
    ensures
        final(storage).wf(),
        final(storage)@.state == old(storage)@.state,
        final(storage)@.minimal_donation == old(storage)@.minimal_donation,
        matches_escrow_outcome(
            spec_create(old(storage)@.escrows, msg@, balance@, sender@),
            old(storage)@.escrows,
            final(storage)@.escrows,
            r,
        ),
{
    let ghost msg_view = msg@;
    let ghost balance_view = balance@;
    if balance.is_empty() {
        return Err(ContractError::EmptyBalance {});
    }
    let mut cw20_whitelist: Vec<Addr> = match msg.addr_whitelist() {
        Ok(w) => w,
        Err(e) => {
            return Err(e);
        },
    };
    let arbiter: Addr = match addr_validate(msg.arbiter.as_str()) {
        Ok(a) => a,
        Err(e) => {
            return Err(e);
        },
    };
    let ghost wl_declared = cw20_whitelist.deep_view();
    match &balance {
        Balance::Cw20(token) => {
            if !addr_list_contains(&cw20_whitelist, &token.address) {
                cw20_whitelist.push(token.address.clone());
                assert(cw20_whitelist.deep_view() =~= wl_declared.push(token.address@));
            }
        },
        Balance::Native(_) => {},
    }
    let mut escrow_balance = GenericBalance::default();
    assert(escrow_balance@ =~~= empty_balance_view());
    match escrow_balance.add_tokens(balance) {
        Err(e) => {
            return Err(e);
        },
        Ok(_) => {},
    }
    let recipient: Option<Addr> = match &msg.recipient {
        Some(rcpt) => match addr_validate(rcpt.as_str()) {
            Ok(a) => Some(a),
            Err(_) => None,
        },
        None => None,
    };
    let id_text: String = msg.id.clone();
    let escrow = Escrow {
        arbiter,
        recipient,
        source: sender.clone(),
        title: msg.title,
        description: msg.description,
        end_height: msg.end_height,
        end_time: msg.end_time,
        balance: escrow_balance,
        cw20_whitelist,
    };
    assert(escrow@ == spec_escrow_of(msg_view, balance_view, sender@));
    match storage.escrows.insert_new(msg.id, escrow) {
        Err(e) => {
            return Err(e);
        },
        Ok(_) => {},
    }
    let mut attributes: Vec<Attribute> = Vec::new();
    attributes.push(attr("action", "create".to_owned()));
    attributes.push(attr("id", id_text));
    let response = Response { attributes, messages: Vec::new() };
    proof {
        assert(response@.attributes =~= seq![
            attr_view("action"@, "create"@),
            attr_view("id"@, msg_view.id),
        ]);
        assert(response@.messages =~= Seq::<TransferInstructionView>::empty());
    }
    Ok(response)
}

/// What `top_up` does: an empty delta is rejected first; the id must name a
/// record; a token delta must be on the record's whitelist, while native
/// deltas are never whitelist-checked; the delta must merge without overflow.
/// On success the record's balance has grown by the delta.
pub open spec fn spec_top_up(
    escrows: Seq<EscrowEntryView>,
    id: Seq<char>,
    balance: BalanceView,
) -> Result<(Seq<EscrowEntryView>, ResponseView), ContractError> {
    if balance_is_empty(balance) {
        Err(ContractError::EmptyBalance {})
    } else if !store_contains(escrows, id) {
        Err(ContractError::NotFound {})
    } else {
        let e = store_get(escrows, id);
        let rejected = match balance {
            BalanceView::Cw20(t) => !addr_list_has(e.cw20_whitelist, t.address),
            BalanceView::Native(_) => false,
        };
        if rejected {
            Err(ContractError::NotInWhitelist {})
        } else if add_balance_overflows(e.balance, balance) {
            Err(ContractError::ArithmeticOverflow {})
        } else {
            let e2 = EscrowView { balance: add_balance(e.balance, balance), ..e };
            Ok(
                (
                    store_update(escrows, id, e2),
                    attrs_only(seq![attr_view("action"@, "top_up"@), attr_view("id"@, id)]),
                ),
            )
        }
    }
}

/// Adds funds to an existing escrow.
pub fn execute_top_up(storage: &mut Storage, id: String, balance: Balance) -> (r: Result<
    Response,
    ContractError,
>)
    requires
        old(storage).wf(),
    ensures
        final(storage).wf(),
        final(storage)@.state == old(storage)@.state,
        final(storage)@.minimal_donation == old(storage)@.minimal_donation,
        matches_escrow_outcome(
            spec_top_up(old(storage)@.escrows, id@, balance@),
            old(storage)@.escrows,
            final(storage)@.escrows,
            r,
        ),
{
    if balance.is_empty() {
        return Err(ContractError::EmptyBalance {});
    }
    let escrow_ref: &Escrow = match storage.escrows.get(&id) {
        None => {
            return Err(ContractError::NotFound {});
        },
        Some(e) => e,
    };
    match &balance {
        Balance::Cw20(token) => {
            if !addr_list_contains(&escrow_ref.cw20_whitelist, &token.address) {
                return Err(ContractError::NotInWhitelist {});
            }
        },
        Balance::Native(_) => {},
    }
    let mut escrow: Escrow = escrow_ref.clone();
    match escrow.balance.add_tokens(balance) {
        Err(e) => {
            return Err(e);
        },
        Ok(_) => {},
    }
    storage.escrows.set_escrow(&id, escrow);
    let mut attributes: Vec<Attribute> = Vec::new();
    attributes.push(attr("action", "top_up".to_owned()));
    attributes.push(attr("id", id));
    let response = Response { attributes, messages: Vec::new() };
    proof {
        assert(response@.attributes =~= seq![
            attr_view("action"@, "top_up"@),
            attr_view("id"@, id@),
        ]);
        assert(response@.messages =~= Seq::<TransferInstructionView>::empty());
    }
    Ok(response)
}

/// What `set_recipient` does: the id must name a record, the caller must be
/// the arbiter, and the new recipient must be a well-formed address; it then
/// replaces any previous recipient unconditionally.
pub open spec fn spec_set_recipient(
    escrows: Seq<EscrowEntryView>,
    id: Seq<char>,
    sender: Seq<char>,
    recipient: Seq<char>,
) -> Result<(Seq<EscrowEntryView>, ResponseView), ContractError> {
    if !store_contains(escrows, id) {
        Err(ContractError::NotFound {})
    } else if sender != store_get(escrows, id).arbiter {
        Err(ContractError::Unauthorized {})
    } else if !is_valid_addr(recipient) {
        Err(ContractError::AddressValidation {})
    } else {
        let e = store_get(escrows, id);
        let e2 = EscrowView { recipient: Some(recipient), ..e };
        Ok(
            (
                store_update(escrows, id, e2),
                attrs_only(
                    seq![
                        attr_view("action"@, "set_recipient"@),
                        attr_view("id"@, id),
                        attr_view("recipient"@, recipient),
                    ],
                ),
            ),
        )
    }
}

/// Assigns where an approved balance will go; only the arbiter may.
pub fn execute_set_recipient(
    storage: &mut Storage,
    info: MessageInfo,
    id: String,
    recipient: String,
) -> (r: Result<Response, ContractError>)
    requires
        old(storage).wf(),
    ensures
        final(storage).wf(),
        final(storage)@.state == old(storage)@.state,
        final(storage)@.minimal_donation == old(storage)@.minimal_donation,
        matches_escrow_outcome(
            spec_set_recipient(old(storage)@.escrows, id@, info.sender@, recipient@),
            old(storage)@.escrows,
            final(storage)@.escrows,
            r,
        ),
{
    let escrow_ref: &Escrow = match storage.escrows.get(&id) {
        None => {
            return Err(ContractError::NotFound {});
        },
        Some(e) => e,
    };
    if !(info.sender == escrow_ref.arbiter) {
        return Err(ContractError::Unauthorized {});
    }
    let rcpt: Addr = match addr_validate(recipient.as_str()) {
        Ok(a) => a,
        Err(e) => {
            return Err(e);
        },
    };
    let mut escrow: Escrow = escrow_ref.clone();
    escrow.recipient = Some(rcpt);
    storage.escrows.set_escrow(&id, escrow);
    let mut attributes: Vec<Attribute> = Vec::new();
    attributes.push(attr("action", "set_recipient".to_owned()));
    attributes.push(attr("id", id));
    attributes.push(attr("recipient", recipient));
    let response = Response { attributes, messages: Vec::new() };
    proof {
        assert(response@.attributes =~= seq![
            attr_view("action"@, "set_recipient"@),
            attr_view("id"@, id@),
            attr_view("recipient"@, recipient@),
        ]);
        assert(response@.messages =~= Seq::<TransferInstructionView>::empty());
    }
    Ok(response)
}

/// The transfer instructions that release a whole balance to one address:
/// one batched native transfer when any native entry exists, then one token
/// transfer per token entry, in stored order.
pub open spec fn spec_send_tokens(to: Seq<char>, b: GenericBalanceView) -> Seq<
    TransferInstructionView,
> {
    let native = if b.native.len() == 0 {
        Seq::<TransferInstructionView>::empty()
    } else {
        seq![TransferInstructionView::Native { to_address: to, amount: b.native }]
    };
    native + b.cw20.map_values(
        |t: Cw20CoinView| TransferInstructionView::Cw20 {
            contract_addr: t.address,
            recipient: to,
            amount: t.amount,
        },
    )
}

/// Plans the release of a whole balance to one address.
#[verifier::loop_isolation(false)]
pub fn send_tokens(to: &Addr, balance: &GenericBalance) -> (r: Vec<TransferInstruction>)
    ensures
        r.deep_view() == spec_send_tokens(to@, balance@),
{
    let ghost cw_part = balance@.cw20.map_values(
        |t: Cw20CoinView| TransferInstructionView::Cw20 {
            contract_addr: t.address,
            recipient: to@,
            amount: t.amount,
        },
    );
    let mut msgs: Vec<TransferInstruction> = Vec::new();
    if balance.native.len() > 0 {
        msgs.push(TransferInstruction::Native {
            to_address: to.as_str().to_owned(),
            amount: clone_coins(&balance.native),
        });
    }
    let ghost base = msgs.deep_view();
    assert(base + cw_part.subrange(0, 0) =~= base);
    let n: usize = balance.cw20.len();
    let mut i: usize = 0;
    while i < n
        invariant
            i <= n,
            msgs.deep_view() =~= base + cw_part.subrange(0, i as int),
        decreases n - i,
    {
        let token: &Cw20CoinVerified = &balance.cw20[i];
        let instr = TransferInstruction::Cw20 {
            contract_addr: token.address.as_str().to_owned(),
            recipient: to.as_str().to_owned(),
            amount: token.amount,
        };
        assert(instr@ == cw_part[i as int]);
        let ghost prev = msgs.deep_view();
        msgs.push(instr);
        assert(msgs.deep_view() =~= prev.push(cw_part[i as int]));
        assert(msgs.deep_view() =~= base + cw_part.subrange(0, i as int + 1));
        i = i + 1;
    }
    assert(cw_part.subrange(0, n as int) =~= cw_part);
    assert(msgs.deep_view() =~= spec_send_tokens(to@, balance@));
    msgs
}

/// What `approve` does: the id must name a record, the caller must be the
/// arbiter, the record must not be expired, and a recipient must be set.  It
/// then deletes the record and releases the whole balance to the recipient.
pub open spec fn spec_approve(
    escrows: Seq<EscrowEntryView>,
    id: Seq<char>,
    sender: Seq<char>,
    height: u64,
    time: u64,
) -> Result<(Seq<EscrowEntryView>, ResponseView), ContractError> {
    if !store_contains(escrows, id) {
        Err(ContractError::NotFound {})
    } else {
        let e = store_get(escrows, id);
        if sender != e.arbiter {
            Err(ContractError::Unauthorized {})
        } else if spec_is_expired(e, height, time) {
            Err(ContractError::Expired {})
        } else {
            match e.recipient {
                None => Err(ContractError::RecipientNotSet {}),
                Some(rcpt) => Ok(
                    (
                        store_remove(escrows, id),
                        ResponseView {
                            attributes: seq![
                                attr_view("action"@, "approve"@),
                                attr_view("id"@, id),
                                attr_view("to"@, rcpt),
                            ],
                            messages: spec_send_tokens(rcpt, e.balance),
                        },
                    ),
                ),
            }
        }
    }
}

/// Releases an escrow's whole balance to its recipient and deletes the
/// record; only the arbiter may, and only before expiry.
pub fn execute_approve(storage: &mut Storage, id: String, env: &Env, info: MessageInfo) -> (r:
    Result<Response, ContractError>)
    requires
        old(storage).wf(),
    ensures
        final(storage).wf(),
        final(storage)@.state == old(storage)@.state,
        final(storage)@.minimal_donation == old(storage)@.minimal_donation,
        matches_escrow_outcome(
            spec_approve(old(storage)@.escrows, id@, info.sender@, env.height, env.time),
            old(storage)@.escrows,
            final(storage)@.escrows,
            r,
        ),
{
    let escrow_ref: &Escrow = match storage.escrows.get(&id) {
        None => {
            return Err(ContractError::NotFound {});
        },
        Some(e) => e,
    };
    if !(info.sender == escrow_ref.arbiter) {
        return Err(ContractError::Unauthorized {});
    }
    if escrow_ref.is_expired(env) {
        return Err(ContractError::Expired {});
    }
    match &escrow_ref.recipient {
        None => {
            return Err(ContractError::RecipientNotSet {});
        },
        Some(_) => {},
    }
    let escrow: Escrow = match storage.escrows.remove(&id) {
        Some(e) => e,
        None => {
            return Err(ContractError::NotFound {});
        },
    };
    let recipient: Addr = match escrow.recipient {
        Some(a) => a,
        None => {
            return Err(ContractError::RecipientNotSet {});
        },
    };
    let messages: Vec<TransferInstruction> = send_tokens(&recipient, &escrow.balance);
    let mut attributes: Vec<Attribute> = Vec::new();
    attributes.push(attr("action", "approve".to_owned()));
    attributes.push(attr("id", id));
    attributes.push(attr("to", recipient.into_string()));
    let response = Response { attributes, messages };
    proof {
        assert(response@.attributes =~= seq![
            attr_view("action"@, "approve"@),
            attr_view("id"@, id@),
            attr_view("to"@, recipient@),
        ]);
    }
    Ok(response)
}

/// What `refund` does: the id must name a record, and the call succeeds only
/// when the record is expired and the caller is the arbiter, as one combined
/// condition; any other combination is `Unauthorized`.  It then deletes the
/// record and returns the whole balance to the source.
pub open spec fn spec_refund(
    escrows: Seq<EscrowEntryView>,
    id: Seq<char>,
    sender: Seq<char>,
    height: u64,
    time: u64,
) -> Result<(Seq<EscrowEntryView>, ResponseView), ContractError> {
    if !store_contains(escrows, id) {
        Err(ContractError::NotFound {})
    } else {
        let e = store_get(escrows, id);
        if !spec_is_expired(e, height, time) || sender != e.arbiter {
            Err(ContractError::Unauthorized {})
        } else {
            Ok(
                (
                    store_remove(escrows, id),
                    ResponseView {
                        attributes: seq![
                            attr_view("action"@, "refund"@),
                            attr_view("id"@, id),
                            attr_view("to"@, e.source),
                        ],
                        messages: spec_send_tokens(e.source, e.balance),
                    },
                ),
            )
        }
    }
}

/// Returns an expired escrow's whole balance to its source and deletes the
/// record; only the arbiter may, and only after expiry.
pub fn execute_refund(storage: &mut Storage, env: &Env, info: MessageInfo, id: String) -> (r:
    Result<Response, ContractError>)
    requires
        old(storage).wf(),
    ensures
        final(storage).wf(),
        final(storage)@.state == old(storage)@.state,
        final(storage)@.minimal_donation == old(storage)@.minimal_donation,
        matches_escrow_outcome(
            spec_refund(old(storage)@.escrows, id@, info.sender@, env.height, env.time),
            old(storage)@.escrows,
            final(storage)@.escrows,
            r,
        ),
{
    let escrow_ref: &Escrow = match storage.escrows.get(&id) {
        None => {
            return Err(ContractError::NotFound {});
        },
        Some(e) => e,
    };
    if !escrow_ref.is_expired(env) || !(info.sender == escrow_ref.arbiter) {
        return Err(ContractError::Unauthorized {});
    }
    let escrow: Escrow = match storage.escrows.remove(&id) {
        Some(e) => e,
        None => {
            return Err(ContractError::NotFound {});
        },
    };
    let messages: Vec<TransferInstruction> = send_tokens(&escrow.source, &escrow.balance);
    let mut attributes: Vec<Attribute> = Vec::new();
    attributes.push(attr("action", "refund".to_owned()));
    attributes.push(attr("id", id));
    attributes.push(attr("to", escrow.source.into_string()));
    let response = Response { attributes, messages };
    proof {
        assert(response@.attributes =~= seq![
            attr_view("action"@, "refund"@),
            attr_view("id"@, id@),
            attr_view("to"@, store_get(old(storage)@.escrows, id@).source),
        ]);
    }
    Ok(response)
}

/// What `execute_receive` does: the forwarded instruction runs under a
/// funding of the transferred token amount, credited to the calling token
/// contract's address; a forwarded creation first requires the original
/// sender to be a well-formed address, who then becomes the source.
pub open spec fn spec_receive(
    escrows: Seq<EscrowEntryView>,
    token_addr: Seq<char>,
    wrapper: Cw20ReceiveMsgView,
) -> Result<(Seq<EscrowEntryView>, ResponseView), ContractError> {
    let balance = BalanceView::Cw20(Cw20CoinView { address: token_addr, amount: wrapper.amount });
    match wrapper.msg {
        ReceiveMsgView::Create(m) => if !is_valid_addr(wrapper.sender) {
            Err(ContractError::AddressValidation {})
        } else {
            spec_create(escrows, m, balance, wrapper.sender)
        },
        ReceiveMsgView::TopUp { id } => spec_top_up(escrows, id, balance),
    }
}

/// Runs the instruction a token contract forwarded alongside its transfer.
pub fn execute_receive(storage: &mut Storage, info: MessageInfo, wrapper: Cw20ReceiveMsg) -> (r:
    Result<Response, ContractError>)
    requires
        old(storage).wf(),
    ensures
        final(storage).wf(),
        final(storage)@.state == old(storage)@.state,
        final(storage)@.minimal_donation == old(storage)@.minimal_donation,
        matches_escrow_outcome(
            spec_receive(old(storage)@.escrows, info.sender@, wrapper@),
            old(storage)@.escrows,
            final(storage)@.escrows,
            r,
        ),
{
    let balance = Balance::Cw20(Cw20CoinVerified { address: info.sender, amount: wrapper.amount });
    match wrapper.msg {
        ReceiveMsg::Create(msg) => {
            let sender: Addr = match addr_validate(wrapper.sender.as_str()) {
                Ok(a) => a,
                Err(e) => {
                    return Err(e);
                },
            };
            execute_create(storage, msg, balance, &sender)
        },
        ReceiveMsg::TopUp { id } => execute_top_up(storage, id, balance),
    }
}

/// A counter outcome embedded into the whole persistent state.
pub open spec fn lift_state(
    s: StorageView,
    o: Result<(StateView, ResponseView), ContractError>,
) -> Result<(StorageView, ResponseView), ContractError> {
    match o {
        Ok((st, resp)) => Ok(
            (
                StorageView {
                    state: st,
                    minimal_donation: s.minimal_donation,
                    escrows: s.escrows,
                },
                resp,
            ),
        ),
        Err(e) => Err(e),
    }
}

/// An escrow-store outcome embedded into the whole persistent state.
pub open spec fn lift_escrows(
    s: StorageView,
    o: Result<(Seq<EscrowEntryView>, ResponseView), ContractError>,
) -> Result<(StorageView, ResponseView), ContractError> {
    match o {
        Ok((es, resp)) => Ok(
            (
                StorageView { state: s.state, minimal_donation: s.minimal_donation, escrows: es },
                resp,
            ),
        ),
        Err(e) => Err(e),
    }
}

/// What `execute` does for each message, over the whole persistent state.
/// Native funds attached to a call serve as the funding of `Create` and
/// `TopUp`; a forwarded `Receive` funds them with the transferred tokens
/// instead.
pub open spec fn spec_execute(
    s: StorageView,
    height: u64,
    time: u64,
    contract_balance: Seq<CoinView>,
    sender: Seq<char>,
    funds: Seq<CoinView>,
    msg: ExecuteMsgView,
) -> Result<(StorageView, ResponseView), ContractError> {
    match msg {
        ExecuteMsgView::Increment => lift_state(s, spec_increment(s.state)),
        ExecuteMsgView::Reset { count } => lift_state(s, spec_reset(s.state, sender, count)),
        ExecuteMsgView::Donate => lift_state(
            s,
            spec_donate(s.state, s.minimal_donation.denom, funds),
        ),
        ExecuteMsgView::Withdraw => lift_state(
            s,
            spec_withdraw(s.state, sender, contract_balance),
        ),
        ExecuteMsgView::Create(m) => lift_escrows(
            s,
            spec_create(s.escrows, m, BalanceView::Native(funds), sender),
        ),
        ExecuteMsgView::SetRecipient { id, recipient } => lift_escrows(
            s,
            spec_set_recipient(s.escrows, id, sender, recipient),
        ),
        ExecuteMsgView::TopUp { id } => lift_escrows(
            s,
            spec_top_up(s.escrows, id, BalanceView::Native(funds)),
        ),
        ExecuteMsgView::Approve { id } => lift_escrows(
            s,
            spec_approve(s.escrows, id, sender, height, time),
        ),
        ExecuteMsgView::Refund { id } => lift_escrows(
            s,
            spec_refund(s.escrows, id, sender, height, time),
        ),
        ExecuteMsgView::Receive(w) => lift_escrows(s, spec_receive(s.escrows, sender, w)),
    }
}

/// Routes one mutating call to its operation.
pub fn execute(storage: &mut Storage, env: &Env, info: MessageInfo, msg: ExecuteMsg) -> (r: Result<
    Response,
    ContractError,
>)
    requires
        old(storage).wf(),
    ensures
        final(storage).wf(),
        matches_storage_outcome(
            spec_execute(
                old(storage)@,
                env.height,
                env.time,
                env.contract_balance.deep_view(),
                info.sender@,
                info.funds.deep_view(),
                msg@,
            ),
            old(storage)@,
            final(storage)@,
            r,
        ),
{
    match msg {
        ExecuteMsg::Increment {} => increment(storage),
        ExecuteMsg::Reset { count } => reset(storage, info, count),
        ExecuteMsg::Donate {} => donate(storage, info),
        ExecuteMsg::Withdraw {} => withdraw(storage, env, info),
        ExecuteMsg::Create(m) => {
            let MessageInfo { sender, funds } = info;
            execute_create(storage, m, Balance::Native(funds), &sender)
        },
        ExecuteMsg::SetRecipient { id, recipient } => execute_set_recipient(
            storage,
            info,
            id,
            recipient,
        ),
        ExecuteMsg::TopUp { id } => execute_top_up(storage, id, Balance::Native(info.funds)),
        ExecuteMsg::Approve { id } => execute_approve(storage, id, env, info),
        ExecuteMsg::Refund { id } => execute_refund(storage, env, info, id),
        ExecuteMsg::Receive(w) => execute_receive(storage, info, w),
    }
}

/// The details view of one record, under its id.
pub open spec fn spec_details(id: Seq<char>, e: EscrowView) -> DetailsResponseView {
    DetailsResponseView {
        id: id,
        arbiter: e.arbiter,
        recipient: e.recipient,
        source: e.source,
        title: e.title,
        description: e.description,
        end_height: e.end_height,
        end_time: e.end_time,
        native_balance: e.balance.native,
        cw20_balance: e.balance.cw20,
        cw20_whitelist: e.cw20_whitelist,
    }
}

/// The counter's current value.
pub fn count(storage: &Storage) -> (r: GetCountResponse)
    ensures
        r.count == storage.state.count,
{
    GetCountResponse { count: storage.state.count }
}

/// The ids of all escrows, ascending.
pub fn query_list(storage: &Storage) -> (r: ListResponse)
    ensures
        r.escrows.deep_view() == store_ids(storage.escrows@),
{
    ListResponse { escrows: all_escrow_ids(storage) }
}

/// The full record under one id, or `NotFound`.
#[verifier::loop_isolation(false)]
pub fn query_detail(storage: &Storage, id: String) -> (r: Result<DetailsResponse, ContractError>)
    ensures
        store_contains(storage.escrows@, id@) ==> (r matches Ok(d) && d@ == spec_details(
            id@,
            store_get(storage.escrows@, id@),
        )),
        !store_contains(storage.escrows@, id@) ==> r == Err::<DetailsResponse, ContractError>(
            ContractError::NotFound {},
        ),
{
    let escrow: &Escrow = match storage.escrows.get(&id) {
        None => {
            return Err(ContractError::NotFound {});
        },
        Some(e) => e,
    };
    let cw20_whitelist: Vec<String> = escrow.human_whitelist();
    let native_balance: Vec<Coin> = clone_coins(&escrow.balance.native);
    let n: usize = escrow.balance.cw20.len();
    let mut cw20_balance: Vec<Cw20Coin> = Vec::new();
    let mut i: usize = 0;
    while i < n
        invariant
            i <= n,
            cw20_balance.deep_view() =~= escrow@.balance.cw20.subrange(0, i as int),
        decreases n - i,
    {
        let token: &Cw20CoinVerified = &escrow.balance.cw20[i];
        cw20_balance.push(Cw20Coin { address: token.address.as_str().to_owned(), amount: token.amount });
        assert(cw20_balance.deep_view() =~= escrow@.balance.cw20.subrange(0, i as int + 1));
        i = i + 1;
    }
    assert(cw20_balance.deep_view() =~= escrow@.balance.cw20);
    let recipient: Option<String> = match &escrow.recipient {
        Some(a) => Some(a.as_str().to_owned()),
        None => None,
    };
    let details = DetailsResponse {
        id,
        arbiter: escrow.arbiter.as_str().to_owned(),
        recipient,
        source: escrow.source.as_str().to_owned(),
        title: escrow.title.clone(),
        description: escrow.description.clone(),
        end_height: escrow.end_height,
        end_time: escrow.end_time,
        native_balance,
        cw20_balance,
        cw20_whitelist,
    };
    Ok(details)
}

/// Answers one query.
pub fn query(storage: &Storage, msg: QueryMsg) -> (r: Result<QueryResponse, ContractError>)
    ensures
        match msg {
            QueryMsg::GetCount {} => r matches Ok(QueryResponse::Count(c)) && c.count
                == storage.state.count,
            QueryMsg::List {} => r matches Ok(QueryResponse::List(l)) && l.escrows.deep_view()
                == store_ids(storage.escrows@),
            QueryMsg::Details { id } => {
                &&& store_contains(storage.escrows@, id@) ==> (r matches Ok(
                    QueryResponse::Details(d),
                ) && d@ == spec_details(id@, store_get(storage.escrows@, id@)))
                &&& !store_contains(storage.escrows@, id@) ==> r == Err::<
                    QueryResponse,
                    ContractError,
                >(ContractError::NotFound {})
            },
        },
{
    match msg {
        QueryMsg::GetCount {} => Ok(QueryResponse::Count(count(storage))),
        QueryMsg::List {} => Ok(QueryResponse::List(query_list(storage))),
        QueryMsg::Details { id } => match query_detail(storage, id) {
            Ok(d) => Ok(QueryResponse::Details(d)),
            Err(e) => Err(e),
        },
    }
}

} // verus!
