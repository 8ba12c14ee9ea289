//! The laws this library guarantees, stated over the specification functions
//! that the executable functions are proved against.

use vstd::prelude::*;

use crate::addr::is_valid_addr;
use crate::contract::{empty_balance_view, spec_approve, spec_create, spec_details,
    spec_escrow_of, spec_refund, spec_set_recipient, spec_top_up};
use crate::error::ContractError;
use crate::lex::lex_lt;
use crate::msg::{all_valid_addrs, whitelist_strings, CreateMsgView};
use crate::state::{add_balance, add_balance_overflows, add_native, add_native_one,
    add_native_overflows, add_token_one, addr_list_has, find_denom, find_token,
    lemma_find_denom, lemma_find_token, lemma_store_get_insert, lemma_store_get_update,
    lemma_store_remove_not_contains, spec_is_expired, store_contains, store_get, store_ids,
    store_remove, store_sorted, store_update, EscrowEntryView, EscrowView,
    GenericBalanceView};
use crate::types::{all_amounts_zero, balance_is_empty, BalanceView, CoinView, Cw20CoinView,
    ResponseView};

verus! {

/// What one native entry contributes to the total under a denomination.
pub open spec fn coin_contrib(c: CoinView, denom: Seq<char>) -> int {
    if c.denom == denom {
        c.amount as int
    } else {
        0
    }
}

/// The total amount held under one denomination, summed over every entry.
pub open spec fn native_total(coins: Seq<CoinView>, denom: Seq<char>) -> int
    decreases coins.len(),
{
    if coins.len() == 0 {
        0
    } else {
        native_total(coins.drop_last(), denom) + coin_contrib(coins.last(), denom)
    }
}

/// What one token entry contributes to the total under a contract address.
pub open spec fn token_contrib(t: Cw20CoinView, address: Seq<char>) -> int {
    if t.address == address {
        t.amount as int
    } else {
        0
    }
}

/// The total amount held under one token contract, summed over every entry.
pub open spec fn token_total(tokens: Seq<Cw20CoinView>, address: Seq<char>) -> int
    decreases tokens.len(),
{
    if tokens.len() == 0 {
        0
    } else {
        token_total(tokens.drop_last(), address) + token_contrib(tokens.last(), address)
    }
}

proof fn lemma_native_total_update(coins: Seq<CoinView>, i: int, e: CoinView, denom: Seq<char>)
    requires
        0 <= i < coins.len(),
    ensures
        native_total(coins.update(i, e), denom) == native_total(coins, denom) - coin_contrib(
            coins[i],
            denom,
        ) + coin_contrib(e, denom),
    decreases coins.len(),
{
    let t = coins.update(i, e);
    if i == coins.len() - 1 {
        assert(t.drop_last() =~= coins.drop_last());
        assert(t.last() == e);
    } else {
        assert(t.drop_last() =~= coins.drop_last().update(i, e));
        assert(t.last() == coins.last());
        lemma_native_total_update(coins.drop_last(), i, e, denom);
    }
}

proof fn lemma_token_total_update(tokens: Seq<Cw20CoinView>, i: int, e: Cw20CoinView, address: Seq<char>)
    requires
        0 <= i < tokens.len(),
    ensures
        token_total(tokens.update(i, e), address) == token_total(tokens, address) - token_contrib(
            tokens[i],
            address,
        ) + token_contrib(e, address),
    decreases tokens.len(),
{
    let t = tokens.update(i, e);
    if i == tokens.len() - 1 {
        assert(t.drop_last() =~= tokens.drop_last());
        assert(t.last() == e);
    } else {
        assert(t.drop_last() =~= tokens.drop_last().update(i, e));
        assert(t.last() == tokens.last());
        lemma_token_total_update(tokens.drop_last(), i, e, address);
    }
}

/// Merging one native coin raises exactly its denomination's total, by
/// exactly its amount.
pub proof fn lemma_add_native_one_total(coins: Seq<CoinView>, c: CoinView, denom: Seq<char>)
    ensures
        native_total(add_native_one(coins, c), denom) == native_total(coins, denom)
            + coin_contrib(c, denom),
{
    let i = find_denom(coins, c.denom);
    lemma_find_denom(coins, c.denom);
    if i < 0 {
        assert(coins.push(c).drop_last() =~= coins);
        assert(coins.push(c).last() == c);
    } else {
        let e = CoinView { denom: coins[i].denom, amount: coins[i].amount + c.amount };
        lemma_native_total_update(coins, i, e, denom);
    }
}

/// Merging one token amount raises exactly its contract's total, by exactly
/// its amount.
pub proof fn lemma_add_token_one_total(tokens: Seq<Cw20CoinView>, t: Cw20CoinView, address: Seq<char>)
    ensures
        token_total(add_token_one(tokens, t), address) == token_total(tokens, address)
            + token_contrib(t, address),
{
    let i = find_token(tokens, t.address);
    lemma_find_token(tokens, t.address);
    if i < 0 {
        assert(tokens.push(t).drop_last() =~= tokens);
        assert(tokens.push(t).last() == t);
    } else {
        let e = Cw20CoinView { address: tokens[i].address, amount: tokens[i].amount + t.amount };
        lemma_token_total_update(tokens, i, e, address);
    }
}

/// Merging a native batch adds the batch's own per-denomination totals: per
/// key, merging is order- and grouping-insensitive.
pub proof fn lemma_add_native_total(coins: Seq<CoinView>, delta: Seq<CoinView>, denom: Seq<char>)
    ensures
        native_total(add_native(coins, delta), denom) == native_total(coins, denom)
            + native_total(delta, denom),
    decreases delta.len(),
{
    if delta.len() > 0 {
        lemma_add_native_total(coins, delta.drop_last(), denom);
        lemma_add_native_one_total(add_native(coins, delta.drop_last()), delta.last(), denom);
    }
}

/// Whole deltas merged in either order give the same per-key totals, native
/// and token alike.
pub proof fn lemma_add_balance_commutes(
    b: GenericBalanceView,
    d1: BalanceView,
    d2: BalanceView,
    denom: Seq<char>,
    address: Seq<char>,
)
    ensures
        native_total(add_balance(add_balance(b, d1), d2).native, denom) == native_total(
            add_balance(add_balance(b, d2), d1).native,
            denom,
        ),
        token_total(add_balance(add_balance(b, d1), d2).cw20, address) == token_total(
            add_balance(add_balance(b, d2), d1).cw20,
            address,
        ),
{
    lemma_add_balance_total(b, d1, denom, address);
    lemma_add_balance_total(add_balance(b, d1), d2, denom, address);
    lemma_add_balance_total(b, d2, denom, address);
    lemma_add_balance_total(add_balance(b, d2), d1, denom, address);
}

/// Merging any delta adds the delta's own per-key totals to the balance.
pub proof fn lemma_add_balance_total(
    b: GenericBalanceView,
    delta: BalanceView,
    denom: Seq<char>,
    address: Seq<char>,
)
    ensures
        native_total(add_balance(b, delta).native, denom) == native_total(b.native, denom)
            + (match delta {
            BalanceView::Native(coins) => native_total(coins, denom),
            BalanceView::Cw20(_) => 0,
        }),
        token_total(add_balance(b, delta).cw20, address) == token_total(b.cw20, address)
            + (match delta {
            BalanceView::Cw20(t) => token_contrib(t, address),
            BalanceView::Native(_) => 0,
        }),
{
    match delta {
        BalanceView::Native(coins) => {
            lemma_add_native_total(b.native, coins, denom);
        },
        BalanceView::Cw20(t) => {
            lemma_add_token_one_total(b.cw20, t, address);
        },
    }
}

/// After a successful creation, the new id holds exactly the specified
/// record: the supplied metadata and expiry bounds, the caller as source,
/// the funding merged into an empty balance, and the whitelist with the
/// funding token auto-appended when it was not already listed.
pub proof fn lemma_create_then_details(
    escrows: Seq<EscrowEntryView>,
    msg: CreateMsgView,
    balance: BalanceView,
    sender: Seq<char>,
    escrows2: Seq<EscrowEntryView>,
    resp: ResponseView,
)
    requires
        store_sorted(escrows),
        spec_create(escrows, msg, balance, sender) == Ok::<
            (Seq<EscrowEntryView>, ResponseView),
            ContractError,
        >((escrows2, resp)),
    ensures
        store_contains(escrows2, msg.id),
        store_get(escrows2, msg.id) == spec_escrow_of(msg, balance, sender),
        ({
            let d = spec_details(msg.id, store_get(escrows2, msg.id));
            &&& d.id == msg.id
            &&& d.arbiter == msg.arbiter
            &&& d.source == sender
            &&& d.title == msg.title
            &&& d.description == msg.description
            &&& d.end_height == msg.end_height
            &&& d.end_time == msg.end_time
            &&& d.native_balance == add_balance(empty_balance_view(), balance).native
            &&& d.cw20_balance == add_balance(empty_balance_view(), balance).cw20
            &&& (balance matches BalanceView::Cw20(t) ==> addr_list_has(
                d.cw20_whitelist,
                t.address,
            ))
            &&& (balance is Native ==> d.cw20_whitelist == whitelist_strings(msg))
        }),
{
    lemma_store_get_insert(escrows, msg.id, spec_escrow_of(msg, balance, sender));
    match balance {
        BalanceView::Cw20(t) => {
            let wl = whitelist_strings(msg);
            if !addr_list_has(wl, t.address) {
                assert(wl.push(t.address)[wl.len() as int] == t.address);
            }
        },
        BalanceView::Native(_) => {},
    }
}

/// Creating under an id that is already active always fails; with inputs
/// that are otherwise acceptable the failure is `AlreadyInUse`.  A specified
/// failure leaves the store exactly as it was.
pub proof fn lemma_create_existing_fails(
    escrows: Seq<EscrowEntryView>,
    msg: CreateMsgView,
    balance: BalanceView,
    sender: Seq<char>,
)
    requires
        store_contains(escrows, msg.id),
    ensures
        spec_create(escrows, msg, balance, sender) is Err,
        !balance_is_empty(balance) && all_valid_addrs(whitelist_strings(msg)) && is_valid_addr(
            msg.arbiter,
        ) && !add_balance_overflows(empty_balance_view(), balance) ==> spec_create(
            escrows,
            msg,
            balance,
            sender,
        ) == Err::<(Seq<EscrowEntryView>, ResponseView), ContractError>(
            ContractError::AlreadyInUse {},
        ),
{
}

/// A token top-up from outside the whitelist always fails `NotInWhitelist`,
/// whatever the amounts; the specified failure leaves the balance untouched.
pub proof fn lemma_top_up_whitelist(
    escrows: Seq<EscrowEntryView>,
    id: Seq<char>,
    token: Cw20CoinView,
)
    requires
        token.amount != 0,
        store_contains(escrows, id),
        !addr_list_has(store_get(escrows, id).cw20_whitelist, token.address),
    ensures
        spec_top_up(escrows, id, BalanceView::Cw20(token)) == Err::<
            (Seq<EscrowEntryView>, ResponseView),
            ContractError,
        >(ContractError::NotInWhitelist {}),
{
}

/// A native top-up is never whitelist-checked: it succeeds whenever it
/// carries value and merges without overflow.
pub proof fn lemma_top_up_native_unchecked(
    escrows: Seq<EscrowEntryView>,
    id: Seq<char>,
    coins: Seq<CoinView>,
)
    requires
        store_contains(escrows, id),
        !all_amounts_zero(coins),
        !add_native_overflows(store_get(escrows, id).balance.native, coins),
    ensures
        spec_top_up(escrows, id, BalanceView::Native(coins)) is Ok,
{
}

/// Approval before any recipient assignment fails `RecipientNotSet`, even
/// for the arbiter of an unexpired record.
pub proof fn lemma_approve_before_recipient(
    escrows: Seq<EscrowEntryView>,
    id: Seq<char>,
    sender: Seq<char>,
    height: u64,
    time: u64,
)
    requires
        store_contains(escrows, id),
        store_get(escrows, id).recipient is None,
        sender == store_get(escrows, id).arbiter,
        !spec_is_expired(store_get(escrows, id), height, time),
    ensures
        spec_approve(escrows, id, sender, height, time) == Err::<
            (Seq<EscrowEntryView>, ResponseView),
            ContractError,
        >(ContractError::RecipientNotSet {}),
{
}

/// Once the arbiter assigns a recipient, the arbiter's approval of the
/// unexpired record succeeds and deletes it, so a second approval fails
/// `NotFound`.
pub proof fn lemma_set_recipient_then_approve(
    escrows: Seq<EscrowEntryView>,
    id: Seq<char>,
    sender: Seq<char>,
    rcpt: Seq<char>,
    height: u64,
    time: u64,
    escrows2: Seq<EscrowEntryView>,
    resp: ResponseView,
)
    requires
        store_sorted(escrows),
        spec_set_recipient(escrows, id, sender, rcpt) == Ok::<
            (Seq<EscrowEntryView>, ResponseView),
            ContractError,
        >((escrows2, resp)),
        !spec_is_expired(store_get(escrows2, id), height, time),
    ensures
        spec_approve(escrows2, id, sender, height, time) is Ok,
        !store_contains(store_remove(escrows2, id), id),
        spec_approve(store_remove(escrows2, id), id, sender, height, time) == Err::<
            (Seq<EscrowEntryView>, ResponseView),
            ContractError,
        >(ContractError::NotFound {}),
{
    let e = store_get(escrows, id);
    let e2 = EscrowView { recipient: Some(rcpt), ..e };
    lemma_store_get_update(escrows, id, e2);
    assert(escrows2 == store_update(escrows, id, e2));
    assert(escrows2.len() == escrows.len());
    assert(store_sorted(escrows2)) by {
        assert forall|p: int, q: int|
            0 <= p < q < escrows2.len() implies lex_lt(
            (#[trigger] escrows2[p]).id,
            (#[trigger] escrows2[q]).id,
        ) by {
            assert(escrows2[p].id == escrows[p].id);
            assert(escrows2[q].id == escrows[q].id);
        }
    }
    lemma_store_remove_not_contains(escrows2, id);
}

/// A non-arbiter's approval always fails `Unauthorized`, whatever the
/// recipient or expiry state.
pub proof fn lemma_approve_non_arbiter(
    escrows: Seq<EscrowEntryView>,
    id: Seq<char>,
    sender: Seq<char>,
    height: u64,
    time: u64,
)
    requires
        store_contains(escrows, id),
        sender != store_get(escrows, id).arbiter,
    ensures
        spec_approve(escrows, id, sender, height, time) == Err::<
            (Seq<EscrowEntryView>, ResponseView),
            ContractError,
        >(ContractError::Unauthorized {}),
{
}

/// A refund succeeds exactly when the record is expired and the caller is
/// the arbiter; every other combination fails `Unauthorized`.
pub proof fn lemma_refund_guard(
    escrows: Seq<EscrowEntryView>,
    id: Seq<char>,
    sender: Seq<char>,
    height: u64,
    time: u64,
)
    requires
        store_contains(escrows, id),
    ensures
        spec_refund(escrows, id, sender, height, time) is Ok <==> (spec_is_expired(
            store_get(escrows, id),
            height,
            time,
        ) && sender == store_get(escrows, id).arbiter),
        !(spec_is_expired(store_get(escrows, id), height, time) && sender == store_get(
            escrows,
            id,
        ).arbiter) ==> spec_refund(escrows, id, sender, height, time) == Err::<
            (Seq<EscrowEntryView>, ResponseView),
            ContractError,
        >(ContractError::Unauthorized {}),
{
}

/// No two native entries share a denomination.
pub open spec fn native_keys_unique(coins: Seq<CoinView>) -> bool {
    forall|i: int, j: int|
        0 <= i < j < coins.len() ==> (#[trigger] coins[i]).denom != (#[trigger] coins[j]).denom
}

/// No two token entries share a contract address.
pub open spec fn token_keys_unique(tokens: Seq<Cw20CoinView>) -> bool {
    forall|i: int, j: int|
        0 <= i < j < tokens.len() ==> (#[trigger] tokens[i]).address != (
        #[trigger] tokens[j]).address
}

proof fn lemma_add_native_one_unique(coins: Seq<CoinView>, c: CoinView)
    requires
        native_keys_unique(coins),
    ensures
        native_keys_unique(add_native_one(coins, c)),
{
    let k = find_denom(coins, c.denom);
    lemma_find_denom(coins, c.denom);
    let t = add_native_one(coins, c);
    if k < 0 {
        assert forall|i: int, j: int|
            0 <= i < j < t.len() implies (#[trigger] t[i]).denom != (#[trigger] t[j]).denom by {
            if j == coins.len() {
                assert(t[i] == coins[i]);
            } else {
                assert(t[i] == coins[i] && t[j] == coins[j]);
            }
        }
    } else {
        assert forall|i: int, j: int|
            0 <= i < j < t.len() implies (#[trigger] t[i]).denom != (#[trigger] t[j]).denom by {
            assert(t[i].denom == coins[i].denom);
            assert(t[j].denom == coins[j].denom);
        }
    }
}

proof fn lemma_add_token_one_unique(tokens: Seq<Cw20CoinView>, c: Cw20CoinView)
    requires
        token_keys_unique(tokens),
    ensures
        token_keys_unique(add_token_one(tokens, c)),
{
    let k = find_token(tokens, c.address);
    lemma_find_token(tokens, c.address);
    let t = add_token_one(tokens, c);
    if k < 0 {
        assert forall|i: int, j: int|
            0 <= i < j < t.len() implies (#[trigger] t[i]).address != (
            #[trigger] t[j]).address by {
            if j == tokens.len() {
                assert(t[i] == tokens[i]);
            } else {
                assert(t[i] == tokens[i] && t[j] == tokens[j]);
            }
        }
    } else {
        assert forall|i: int, j: int|
            0 <= i < j < t.len() implies (#[trigger] t[i]).address != (
            #[trigger] t[j]).address by {
            assert(t[i].address == tokens[i].address);
            assert(t[j].address == tokens[j].address);
        }
    }
}

proof fn lemma_add_native_unique(coins: Seq<CoinView>, delta: Seq<CoinView>)
    requires
        native_keys_unique(coins),
    ensures
        native_keys_unique(add_native(coins, delta)),
    decreases delta.len(),
{
    if delta.len() > 0 {
        lemma_add_native_unique(coins, delta.drop_last());
        lemma_add_native_one_unique(add_native(coins, delta.drop_last()), delta.last());
    }
}

/// A balance whose keys are unique keeps them unique under any merge.  A
/// record's balance starts empty at creation and is only ever merged into,
/// so no stored balance holds a duplicate denomination or token address.
pub proof fn lemma_add_balance_keys_unique(b: GenericBalanceView, delta: BalanceView)
    requires
        native_keys_unique(b.native),
        token_keys_unique(b.cw20),
    ensures
        native_keys_unique(add_balance(b, delta).native),
        token_keys_unique(add_balance(b, delta).cw20),
{
    match delta {
        BalanceView::Native(coins) => {
            lemma_add_native_unique(b.native, coins);
        },
        BalanceView::Cw20(t) => {
            lemma_add_token_one_unique(b.cw20, t);
        },
    }
}

/// A well-formed store lists its ids in strictly ascending order.
pub proof fn lemma_ids_ascending(s: Seq<EscrowEntryView>)
    requires
        store_sorted(s),
    ensures
        forall|i: int, j: int|
            0 <= i < j < store_ids(s).len() ==> lex_lt(
                #[trigger] store_ids(s)[i],
                #[trigger] store_ids(s)[j],
            ),
{
    assert forall|i: int, j: int|
        0 <= i < j < store_ids(s).len() implies lex_lt(
        #[trigger] store_ids(s)[i],
        #[trigger] store_ids(s)[j],
    ) by {
        assert(store_ids(s)[i] == s[i].id);
        assert(store_ids(s)[j] == s[j].id);
    }
}

} // verus!
