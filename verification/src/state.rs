use vstd::prelude::*;

use crate::addr::Addr;
use crate::error::ContractError;
use crate::lex::{lex_lt, lemma_lex_lt_connected, lemma_lex_lt_irreflexive,
    lemma_lex_lt_transitive, str_eq, str_lt};
use crate::types::{Balance, BalanceView, Coin, CoinView, Cw20CoinVerified, Cw20CoinView,
    clone_coins, Env};

verus! {

/// The owner-gated counter that shares the contract's persistent state.
#[derive(Debug, PartialEq)]
pub struct State {
    pub count: i32,
    pub owner: Addr,
}

#[verifier::ext_equal]
pub ghost struct StateView {
    pub count: int,
    pub owner: Seq<char>,
}

impl View for State {
    type V = StateView;

    open spec fn view(&self) -> StateView {
        StateView { count: self.count as int, owner: self.owner@ }
    }
}

/// The unified balance of one escrow: native coins keyed by denomination and
/// tokens keyed by contract address.
#[derive(Debug, PartialEq)]
pub struct GenericBalance {
    pub native: Vec<Coin>,
    pub cw20: Vec<Cw20CoinVerified>,
}

#[verifier::ext_equal]
pub ghost struct GenericBalanceView {
    pub native: Seq<CoinView>,
    pub cw20: Seq<Cw20CoinView>,
}

impl View for GenericBalance {
    type V = GenericBalanceView;

    open spec fn view(&self) -> GenericBalanceView {
        GenericBalanceView { native: self.native.deep_view(), cw20: self.cw20.deep_view() }
    }
}

impl Default for GenericBalance {
    /// A balance holding nothing at all.
    fn default() -> (r: Self)
        ensures
            r@.native.len() == 0,
            r@.cw20.len() == 0,
    {
        GenericBalance { native: Vec::new(), cw20: Vec::new() }
    }
}

/// The index of the first native entry under `denom`, or -1 when none exists.
pub open spec fn find_denom(coins: Seq<CoinView>, denom: Seq<char>) -> int
    decreases coins.len(),
{
    if coins.len() == 0 {
        -1
    } else if coins[0].denom == denom {
        0
    } else {
        let r = find_denom(coins.drop_first(), denom);
        if r < 0 {
            -1
        } else {
            r + 1
        }
    }
}

pub proof fn lemma_find_denom(coins: Seq<CoinView>, denom: Seq<char>)
    ensures
        -1 <= find_denom(coins, denom) < coins.len(),
        find_denom(coins, denom) >= 0 ==> coins[find_denom(coins, denom)].denom == denom,
        forall|j: int|
            0 <= j < find_denom(coins, denom) ==> (#[trigger] coins[j]).denom != denom,
        find_denom(coins, denom) == -1 ==> forall|j: int|
            0 <= j < coins.len() ==> (#[trigger] coins[j]).denom != denom,
    decreases coins.len(),
{
    if coins.len() > 0 && coins[0].denom != denom {
        lemma_find_denom(coins.drop_first(), denom);
        assert forall|j: int|
            0 <= j < find_denom(coins, denom) implies (#[trigger] coins[j]).denom != denom by {
            if j > 0 {
                assert(coins[j] == coins.drop_first()[j - 1]);
            }
        }
        if find_denom(coins, denom) == -1 {
            assert forall|j: int|
                0 <= j < coins.len() implies (#[trigger] coins[j]).denom != denom by {
                if j > 0 {
                    assert(coins[j] == coins.drop_first()[j - 1]);
                }
            }
        }
    }
}

/// The first occurrence is the one `find_denom` names.
pub proof fn lemma_find_denom_at(coins: Seq<CoinView>, denom: Seq<char>, i: int)
    requires
        0 <= i < coins.len(),
        coins[i].denom == denom,
        forall|j: int| 0 <= j < i ==> (#[trigger] coins[j]).denom != denom,
    ensures
        find_denom(coins, denom) == i,
    decreases coins.len(),
{
    if i > 0 {
        assert(coins[0].denom != denom);
        assert(coins.drop_first()[i - 1].denom == denom);
        assert forall|j: int|
            0 <= j < i - 1 implies (#[trigger] coins.drop_first()[j]).denom != denom by {
            assert(coins.drop_first()[j] == coins[j + 1]);
        }
        lemma_find_denom_at(coins.drop_first(), denom, i - 1);
    }
}

/// One native coin merged into a balance: added to the entry under its
/// denomination when one exists, appended as a new entry otherwise.
pub open spec fn add_native_one(coins: Seq<CoinView>, c: CoinView) -> Seq<CoinView> {
    let i = find_denom(coins, c.denom);
    if i < 0 {
        coins.push(c)
    } else {
        coins.update(i, CoinView { denom: coins[i].denom, amount: coins[i].amount + c.amount })
    }
}

/// Whether merging `c` would push an existing entry past the largest
/// representable amount.
pub open spec fn add_native_one_overflows(coins: Seq<CoinView>, c: CoinView) -> bool {
    let i = find_denom(coins, c.denom);
    i >= 0 && coins[i].amount + c.amount > u128::MAX
}

/// A batch of native coins merged left to right.
pub open spec fn add_native(coins: Seq<CoinView>, delta: Seq<CoinView>) -> Seq<CoinView>
    decreases delta.len(),
{
    if delta.len() == 0 {
        coins
    } else {
        add_native_one(add_native(coins, delta.drop_last()), delta.last())
    }
}

/// Whether any single merge step of the batch overflows.
pub open spec fn add_native_overflows(coins: Seq<CoinView>, delta: Seq<CoinView>) -> bool
    decreases delta.len(),
{
    if delta.len() == 0 {
        false
    } else {
        add_native_overflows(coins, delta.drop_last()) || add_native_one_overflows(
            add_native(coins, delta.drop_last()),
            delta.last(),
        )
    }
}

/// The index of the first token entry under `address`, or -1 when none exists.
pub open spec fn find_token(tokens: Seq<Cw20CoinView>, address: Seq<char>) -> int
    decreases tokens.len(),
{
    if tokens.len() == 0 {
        -1
    } else if tokens[0].address == address {
        0
    } else {
        let r = find_token(tokens.drop_first(), address);
        if r < 0 {
            -1
        } else {
            r + 1
        }
    }
}

pub proof fn lemma_find_token(tokens: Seq<Cw20CoinView>, address: Seq<char>)
    ensures
        -1 <= find_token(tokens, address) < tokens.len(),
        find_token(tokens, address) >= 0 ==> tokens[find_token(tokens, address)].address
            == address,
        forall|j: int|
            0 <= j < find_token(tokens, address) ==> (#[trigger] tokens[j]).address != address,
        find_token(tokens, address) == -1 ==> forall|j: int|
            0 <= j < tokens.len() ==> (#[trigger] tokens[j]).address != address,
    decreases tokens.len(),
{
    if tokens.len() > 0 && tokens[0].address != address {
        lemma_find_token(tokens.drop_first(), address);
        assert forall|j: int|
            0 <= j < find_token(tokens, address) implies (#[trigger] tokens[j]).address
            != address by {
            if j > 0 {
                assert(tokens[j] == tokens.drop_first()[j - 1]);
            }
        }
        if find_token(tokens, address) == -1 {
            assert forall|j: int|
                0 <= j < tokens.len() implies (#[trigger] tokens[j]).address != address by {
                if j > 0 {
                    assert(tokens[j] == tokens.drop_first()[j - 1]);
                }
            }
        }
    }
}

/// The first occurrence is the one `find_token` names.
pub proof fn lemma_find_token_at(tokens: Seq<Cw20CoinView>, address: Seq<char>, i: int)
    requires
        0 <= i < tokens.len(),
        tokens[i].address == address,
        forall|j: int| 0 <= j < i ==> (#[trigger] tokens[j]).address != address,
    ensures
        find_token(tokens, address) == i,
    decreases tokens.len(),
{
    if i > 0 {
        assert(tokens[0].address != address);
        assert(tokens.drop_first()[i - 1].address == address);
        assert forall|j: int|
            0 <= j < i - 1 implies (#[trigger] tokens.drop_first()[j]).address != address by {
            assert(tokens.drop_first()[j] == tokens[j + 1]);
        }
        lemma_find_token_at(tokens.drop_first(), address, i - 1);
    }
}

/// One token amount merged into a balance: added to the entry under its
/// contract address when one exists, appended as a new entry otherwise.
pub open spec fn add_token_one(tokens: Seq<Cw20CoinView>, t: Cw20CoinView) -> Seq<Cw20CoinView> {
    let i = find_token(tokens, t.address);
    if i < 0 {
        tokens.push(t)
    } else {
        tokens.update(
            i,
            Cw20CoinView { address: tokens[i].address, amount: tokens[i].amount + t.amount },
        )
    }
}

/// Whether merging `t` would push an existing entry past the largest
/// representable amount.
pub open spec fn add_token_one_overflows(tokens: Seq<Cw20CoinView>, t: Cw20CoinView) -> bool {
    let i = find_token(tokens, t.address);
    i >= 0 && tokens[i].amount + t.amount > u128::MAX
}

/// A whole delta merged into a unified balance.
pub open spec fn add_balance(b: GenericBalanceView, delta: BalanceView) -> GenericBalanceView {
    match delta {
        BalanceView::Native(coins) => GenericBalanceView {
            native: add_native(b.native, coins),
            cw20: b.cw20,
        },
        BalanceView::Cw20(t) => GenericBalanceView {
            native: b.native,
            cw20: add_token_one(b.cw20, t),
        },
    }
}

/// Whether merging the delta would overflow some entry.
pub open spec fn add_balance_overflows(b: GenericBalanceView, delta: BalanceView) -> bool {
    match delta {
        BalanceView::Native(coins) => add_native_overflows(b.native, coins),
        BalanceView::Cw20(t) => add_token_one_overflows(b.cw20, t),
    }
}

/// Finds the first native entry under `denom`.
#[verifier::loop_isolation(false)]
fn find_denom_index(coins: &Vec<Coin>, denom: &String) -> (r: Option<usize>)
    ensures
        match r {
            Some(i) => find_denom(coins.deep_view(), denom@) == i as int,
            None => find_denom(coins.deep_view(), denom@) == -1,
        },
{
    let n: usize = coins.len();
    let mut i: usize = 0;
    while i < n
        invariant
            i <= n,
            forall|j: int| 0 <= j < i ==> (#[trigger] coins.deep_view()[j]).denom != denom@,
        decreases n - i,
    {
        if coins[i].denom == *denom {
            proof {
                lemma_find_denom_at(coins.deep_view(), denom@, i as int);
            }
            return Some(i);
        }
        assert(coins.deep_view()[i as int].denom != denom@);
        i = i + 1;
    }
    proof {
        lemma_find_denom(coins.deep_view(), denom@);
    }
    None
}

/// Finds the first token entry under `address`.
#[verifier::loop_isolation(false)]
fn find_token_index(tokens: &Vec<Cw20CoinVerified>, address: &Addr) -> (r: Option<usize>)
    ensures
        match r {
            Some(i) => find_token(tokens.deep_view(), address@) == i as int,
            None => find_token(tokens.deep_view(), address@) == -1,
        },
{
    let n: usize = tokens.len();
    let mut i: usize = 0;
    while i < n
        invariant
            i <= n,
            forall|j: int| 0 <= j < i ==> (#[trigger] tokens.deep_view()[j]).address != address@,
        decreases n - i,
    {
        if tokens[i].address == *address {
            proof {
                lemma_find_token_at(tokens.deep_view(), address@, i as int);
            }
            return Some(i);
        }
        assert(tokens.deep_view()[i as int].address != address@);
        i = i + 1;
    }
    proof {
        lemma_find_token(tokens.deep_view(), address@);
    }
    None
}

impl GenericBalance {
    /// Merges a funding or top-up delta into this balance: per key the
    /// amounts add up; keys not seen before are appended in the order first
    /// seen.  On overflow nothing changes and `ArithmeticOverflow` is
    /// reported.
    #[verifier::loop_isolation(false)]
    pub fn add_tokens(&mut self, add: Balance) -> (r: Result<(), ContractError>)
        ensures
            r is Ok <==> !add_balance_overflows(old(self)@, add@),
            r is Ok ==> final(self)@ == add_balance(old(self)@, add@),
            r is Err ==> final(self)@ == old(self)@ && r == Err::<(), ContractError>(
                ContractError::ArithmeticOverflow {},
            ),
    {
        match add {
            Balance::Native(delta) => {
                let mut result: Vec<Coin> = clone_coins(&self.native);
                assert(result.deep_view() =~= self@.native);
                let n: usize = delta.len();
                let mut k: usize = 0;
                while k < n
                    invariant
                        k <= n,
                        !add_native_overflows(
                            old(self)@.native,
                            delta.deep_view().subrange(0, k as int),
                        ),
                        result.deep_view() == add_native(
                            old(self)@.native,
                            delta.deep_view().subrange(0, k as int),
                        ),
                        self@ == old(self)@,
                    decreases n - k,
                {
                    let ghost prefix = delta.deep_view().subrange(0, k as int);
                    let ghost next_prefix = delta.deep_view().subrange(0, k as int + 1);
                    proof {
                        assert(next_prefix.drop_last() =~= prefix);
                        assert(next_prefix.last() == delta.deep_view()[k as int]);
                    }
                    let c: &Coin = &delta[k];
                    match find_denom_index(&result, &c.denom) {
                        Some(i) => {
                            proof {
                                lemma_find_denom(result.deep_view(), c.denom@);
                            }
                            match result[i].amount.checked_add(c.amount) {
                                Some(s) => {
                                    let elem: &mut Coin = &mut result[i];
                                    elem.amount = s;
                                    assert(result.deep_view() =~= add_native(
                                        old(self)@.native,
                                        next_prefix,
                                    ));
                                },
                                None => {
                                    assert(add_native_one_overflows(
                                        add_native(old(self)@.native, prefix),
                                        c@,
                                    ));
                                    assert(add_native_overflows(
                                        old(self)@.native,
                                        next_prefix,
                                    ));
                                    proof {
                                        lemma_add_native_overflows_extend(
                                            old(self)@.native,
                                            delta.deep_view(),
                                            k as int + 1,
                                        );
                                    }
                                    return Err(ContractError::ArithmeticOverflow {});
                                },
                            }
                        },
                        None => {
                            result.push(c.clone());
                            assert(result.deep_view() =~= add_native(
                                old(self)@.native,
                                next_prefix,
                            ));
                        },
                    }
                    k = k + 1;
                }
                assert(delta.deep_view().subrange(0, n as int) =~= delta.deep_view());
                self.native = result;
                Ok(())
            },
            Balance::Cw20(token) => {
                match find_token_index(&self.cw20, &token.address) {
                    Some(i) => {
                        proof {
                            lemma_find_token(self@.cw20, token.address@);
                        }
                        match self.cw20[i].amount.checked_add(token.amount) {
                            Some(s) => {
                                let elem: &mut Cw20CoinVerified = &mut self.cw20[i];
                                elem.amount = s;
                                assert(self@.cw20 =~= add_token_one(old(self)@.cw20, token@));
                                assert(self@ == add_balance(old(self)@, add@)) by {
                                    assert(add@ == BalanceView::Cw20(token@));
                                };
                                Ok(())
                            },
                            None => Err(ContractError::ArithmeticOverflow {}),
                        }
                    },
                    None => {
                        self.cw20.push(token);
                        assert(self@.cw20 =~= add_token_one(old(self)@.cw20, token@));
                        Ok(())
                    },
                }
            },
        }
    }
}

/// Once one merge step overflows, the whole batch is counted as overflowing.
pub proof fn lemma_add_native_overflows_extend(coins: Seq<CoinView>, delta: Seq<CoinView>, k: int)
    requires
        0 <= k <= delta.len(),
        add_native_overflows(coins, delta.subrange(0, k)),
    ensures
        add_native_overflows(coins, delta),
    decreases delta.len() - k,
{
    if k < delta.len() {
        assert(delta.subrange(0, k + 1).drop_last() =~= delta.subrange(0, k));
        lemma_add_native_overflows_extend(coins, delta, k + 1);
    } else {
        assert(delta.subrange(0, k) =~= delta);
    }
}

/// Copies a token entry list, preserving its view.
pub fn clone_tokens(tokens: &Vec<Cw20CoinVerified>) -> (r: Vec<Cw20CoinVerified>)
    ensures
        r@ == tokens@,
{
    let n: usize = tokens.len();
    let mut r: Vec<Cw20CoinVerified> = Vec::new();
    let mut i: usize = 0;
    while i < n
        invariant
            i <= n,
            n == tokens@.len(),
            r@ =~= tokens@.subrange(0, i as int),
        decreases n - i,
    {
        r.push(tokens[i].clone());
        i = i + 1;
    }
    assert(r@ =~= tokens@);
    r
}

/// Copies an address list, preserving its view.
pub fn clone_addrs(addrs: &Vec<Addr>) -> (r: Vec<Addr>)
    ensures
        r@ == addrs@,
{
    let n: usize = addrs.len();
    let mut r: Vec<Addr> = Vec::new();
    let mut i: usize = 0;
    while i < n
        invariant
            i <= n,
            n == addrs@.len(),
            r@ =~= addrs@.subrange(0, i as int),
        decreases n - i,
    {
        r.push(addrs[i].clone());
        i = i + 1;
    }
    assert(r@ =~= addrs@);
    r
}

impl Clone for GenericBalance {
    fn clone(&self) -> (r: Self)
        ensures
            r@ == self@,
    {
        GenericBalance { native: clone_coins(&self.native), cw20: clone_tokens(&self.cw20) }
    }
}

/// Whether an address list holds `address`.
pub open spec fn addr_list_has(list: Seq<Seq<char>>, address: Seq<char>) -> bool {
    exists|i: int| 0 <= i < list.len() && list[i] == address
}

/// Decides `addr_list_has` on a vector of addresses.
#[verifier::loop_isolation(false)]
pub fn addr_list_contains(list: &Vec<Addr>, address: &Addr) -> (r: bool)
    ensures
        r == addr_list_has(list.deep_view(), address@),
{
    let n: usize = list.len();
    let mut i: usize = 0;
    while i < n
        invariant
            i <= n,
            forall|j: int| 0 <= j < i ==> list.deep_view()[j] != address@,
        decreases n - i,
    {
        if list[i] == *address {
            assert(list.deep_view()[i as int] == address@);
            return true;
        }
        assert(list.deep_view()[i as int] != address@);
        i = i + 1;
    }
    false
}

/// One escrow record: the parties, the free-text metadata, the optional
/// expiry bounds, the accumulated balance, and the token whitelist fixed at
/// creation.
#[derive(Debug)]
pub struct Escrow {
    /// Sole authority to set the recipient, approve, and refund.
    pub arbiter: Addr,
    /// Where an approved balance goes; must be set before approval.
    pub recipient: Option<Addr>,
    /// The original funder, where a refunded balance goes.
    pub source: Addr,
    pub title: String,
    pub description: String,
    /// Expired once the block height exceeds this bound, if set.
    pub end_height: Option<u64>,
    /// Expired once the block time (seconds since epoch) exceeds this bound,
    /// if set.
    pub end_time: Option<u64>,
    pub balance: GenericBalance,
    /// The token contracts accepted for top-up, fixed at creation.
    pub cw20_whitelist: Vec<Addr>,
}

#[verifier::ext_equal]
pub ghost struct EscrowView {
    pub arbiter: Seq<char>,
    pub recipient: Option<Seq<char>>,
    pub source: Seq<char>,
    pub title: Seq<char>,
    pub description: Seq<char>,
    pub end_height: Option<u64>,
    pub end_time: Option<u64>,
    pub balance: GenericBalanceView,
    pub cw20_whitelist: Seq<Seq<char>>,
}

impl View for Escrow {
    type V = EscrowView;

    open spec fn view(&self) -> EscrowView {
        EscrowView {
            arbiter: self.arbiter@,
            recipient: self.recipient.deep_view(),
            source: self.source@,
            title: self.title@,
            description: self.description@,
            end_height: self.end_height,
            end_time: self.end_time,
            balance: self.balance@,
            cw20_whitelist: self.cw20_whitelist.deep_view(),
        }
    }
}

impl Clone for Escrow {
    fn clone(&self) -> (r: Self)
        ensures
            r@ == self@,
    {
        Escrow {
            arbiter: self.arbiter.clone(),
            recipient: match &self.recipient {
                Some(a) => Some(a.clone()),
                None => None,
            },
            source: self.source.clone(),
            title: self.title.clone(),
            description: self.description.clone(),
            end_height: self.end_height,
            end_time: self.end_time,
            balance: self.balance.clone(),
            cw20_whitelist: clone_addrs(&self.cw20_whitelist),
        }
    }
}

/// A record is expired once its height bound or its time bound is strictly
/// exceeded; a bound that is not set never expires the record.
pub open spec fn spec_is_expired(e: EscrowView, height: u64, time: u64) -> bool {
    ||| match e.end_height {
        Some(h) => height > h,
        None => false,
    }
    ||| match e.end_time {
        Some(t) => time > t,
        None => false,
    }
}

impl Escrow {
    /// Evaluates expiry under the given host snapshot.  Being exactly at a
    /// bound does not expire the record.
    pub fn is_expired(&self, env: &Env) -> (r: bool)
        ensures
            r == spec_is_expired(self@, env.height, env.time),
    {
        if let Some(end_height) = self.end_height {
            if env.height > end_height {
                return true;
            }
        }
        if let Some(end_time) = self.end_time {
            if env.time > end_time {
                return true;
            }
        }
        false
    }

    /// The whitelist as plain text, for reporting.
    #[verifier::loop_isolation(false)]
    pub fn human_whitelist(&self) -> (r: Vec<String>)
        ensures
            r.deep_view() == self@.cw20_whitelist,
    {
        let n: usize = self.cw20_whitelist.len();
        let mut r: Vec<String> = Vec::new();
        let mut i: usize = 0;
        while i < n
            invariant
                i <= n,
                r.deep_view() =~= self@.cw20_whitelist.subrange(0, i as int),
            decreases n - i,
        {
            r.push(self.cw20_whitelist[i].as_str().to_owned());
            assert(r.deep_view() =~= self@.cw20_whitelist.subrange(0, i as int + 1));
            i = i + 1;
        }
        assert(r.deep_view() =~= self@.cw20_whitelist);
        r
    }
}

/// One stored record together with its id.
pub struct EscrowEntry {
    pub id: String,
    pub escrow: Escrow,
}

#[verifier::ext_equal]
pub ghost struct EscrowEntryView {
    pub id: Seq<char>,
    pub escrow: EscrowView,
}

impl View for EscrowEntry {
    type V = EscrowEntryView;

    open spec fn view(&self) -> EscrowEntryView {
        EscrowEntryView { id: self.id@, escrow: self.escrow@ }
    }
}

impl DeepView for EscrowEntry {
    type V = EscrowEntryView;

    open spec fn deep_view(&self) -> EscrowEntryView {
        self@
    }
}

/// The index of the entry with `id`, or -1 when none exists.
pub open spec fn store_index(s: Seq<EscrowEntryView>, id: Seq<char>) -> int
    decreases s.len(),
{
    if s.len() == 0 {
        -1
    } else if s[0].id == id {
        0
    } else {
        let r = store_index(s.drop_first(), id);
        if r < 0 {
            -1
        } else {
            r + 1
        }
    }
}

/// Whether a record exists under `id`.
pub open spec fn store_contains(s: Seq<EscrowEntryView>, id: Seq<char>) -> bool {
    store_index(s, id) >= 0
}

/// The record stored under `id`.
pub open spec fn store_get(s: Seq<EscrowEntryView>, id: Seq<char>) -> EscrowView {
    s[store_index(s, id)].escrow
}

/// Where a new record under `id` belongs: after every entry whose id
/// precedes it.
pub open spec fn insert_pos(s: Seq<EscrowEntryView>, id: Seq<char>) -> int
    decreases s.len(),
{
    if s.len() == 0 {
        0
    } else if lex_lt(s[0].id, id) {
        1 + insert_pos(s.drop_first(), id)
    } else {
        0
    }
}

/// The store after adding a record under a fresh id.
pub open spec fn store_insert(
    s: Seq<EscrowEntryView>,
    id: Seq<char>,
    e: EscrowView,
) -> Seq<EscrowEntryView> {
    s.insert(insert_pos(s, id), EscrowEntryView { id: id, escrow: e })
}

/// The store after replacing the record under an existing id.
pub open spec fn store_update(
    s: Seq<EscrowEntryView>,
    id: Seq<char>,
    e: EscrowView,
) -> Seq<EscrowEntryView> {
    s.update(store_index(s, id), EscrowEntryView { id: id, escrow: e })
}

/// The store after deleting the record under an existing id.
pub open spec fn store_remove(s: Seq<EscrowEntryView>, id: Seq<char>) -> Seq<EscrowEntryView> {
    s.remove(store_index(s, id))
}

/// All ids, in stored order.
pub open spec fn store_ids(s: Seq<EscrowEntryView>) -> Seq<Seq<char>> {
    s.map_values(|e: EscrowEntryView| e.id)
}

/// Entries are strictly ascending by id; in particular ids are unique.
pub open spec fn store_sorted(s: Seq<EscrowEntryView>) -> bool {
    forall|i: int, j: int|
        0 <= i < j < s.len() ==> lex_lt((#[trigger] s[i]).id, (#[trigger] s[j]).id)
}

pub proof fn lemma_store_index(s: Seq<EscrowEntryView>, id: Seq<char>)
    ensures
        -1 <= store_index(s, id) < s.len(),
        store_index(s, id) >= 0 ==> s[store_index(s, id)].id == id,
        forall|j: int| 0 <= j < store_index(s, id) ==> (#[trigger] s[j]).id != id,
        store_index(s, id) == -1 ==> forall|j: int|
            0 <= j < s.len() ==> (#[trigger] s[j]).id != id,
    decreases s.len(),
{
    if s.len() > 0 && s[0].id != id {
        lemma_store_index(s.drop_first(), id);
        assert forall|j: int|
            0 <= j < store_index(s, id) implies (#[trigger] s[j]).id != id by {
            if j > 0 {
                assert(s[j] == s.drop_first()[j - 1]);
            }
        }
        if store_index(s, id) == -1 {
            assert forall|j: int| 0 <= j < s.len() implies (#[trigger] s[j]).id != id by {
                if j > 0 {
                    assert(s[j] == s.drop_first()[j - 1]);
                }
            }
        }
    }
}

/// The first matching position is the one `store_index` names.
pub proof fn lemma_store_index_at(s: Seq<EscrowEntryView>, id: Seq<char>, i: int)
    requires
        0 <= i < s.len(),
        s[i].id == id,
        forall|j: int| 0 <= j < i ==> (#[trigger] s[j]).id != id,
    ensures
        store_index(s, id) == i,
    decreases s.len(),
{
    if i > 0 {
        assert(s[0].id != id);
        assert(s.drop_first()[i - 1].id == id);
        assert forall|j: int|
            0 <= j < i - 1 implies (#[trigger] s.drop_first()[j]).id != id by {
            assert(s.drop_first()[j] == s[j + 1]);
        }
        lemma_store_index_at(s.drop_first(), id, i - 1);
    }
}

/// Where the scan for the insertion point stops is `insert_pos`.
pub proof fn lemma_insert_pos_at(s: Seq<EscrowEntryView>, id: Seq<char>, i: int)
    requires
        0 <= i <= s.len(),
        forall|j: int| 0 <= j < i ==> lex_lt((#[trigger] s[j]).id, id),
        i < s.len() ==> !lex_lt(s[i].id, id),
    ensures
        insert_pos(s, id) == i,
    decreases s.len(),
{
    if i > 0 {
        assert(lex_lt(s[0].id, id));
        assert forall|j: int|
            0 <= j < i - 1 implies lex_lt((#[trigger] s.drop_first()[j]).id, id) by {
            assert(s.drop_first()[j] == s[j + 1]);
        }
        if i - 1 < s.drop_first().len() {
            assert(s.drop_first()[i - 1] == s[i]);
        }
        lemma_insert_pos_at(s.drop_first(), id, i - 1);
    }
}

/// Inserting a fresh id at its position keeps the store sorted.
pub proof fn lemma_store_insert_sorted(s: Seq<EscrowEntryView>, id: Seq<char>, e: EscrowView, i: int)
    requires
        store_sorted(s),
        0 <= i <= s.len(),
        forall|j: int| 0 <= j < i ==> lex_lt((#[trigger] s[j]).id, id),
        i < s.len() ==> !lex_lt(s[i].id, id) && s[i].id != id,
    ensures
        store_sorted(s.insert(i, EscrowEntryView { id: id, escrow: e })),
{
    let t = s.insert(i, EscrowEntryView { id: id, escrow: e });
    if i < s.len() {
        if !lex_lt(id, s[i].id) {
            lemma_lex_lt_connected(s[i].id, id);
        }
        assert(lex_lt(id, s[i].id));
    }
    assert forall|p: int, q: int|
        0 <= p < q < t.len() implies lex_lt((#[trigger] t[p]).id, (#[trigger] t[q]).id) by {
        if p < i && q == i {
            assert(t[p] == s[p]);
        } else if p == i && q > i {
            assert(t[q] == s[q - 1]);
            if q - 1 > i {
                assert(lex_lt(s[i].id, s[q - 1].id));
                lemma_lex_lt_transitive(id, s[i].id, s[q - 1].id);
            }
        } else if p < i && q > i {
            assert(t[p] == s[p] && t[q] == s[q - 1]);
        } else if q < i {
            assert(t[p] == s[p] && t[q] == s[q]);
        } else if p > i {
            assert(t[p] == s[p - 1] && t[q] == s[q - 1]);
        }
    }
}

/// Deleting an entry keeps the store sorted.
pub proof fn lemma_store_remove_sorted(s: Seq<EscrowEntryView>, i: int)
    requires
        store_sorted(s),
        0 <= i < s.len(),
    ensures
        store_sorted(s.remove(i)),
{
    let t = s.remove(i);
    assert forall|p: int, q: int|
        0 <= p < q < t.len() implies lex_lt((#[trigger] t[p]).id, (#[trigger] t[q]).id) by {
        let p0: int = if p < i { p } else { p + 1 };
        let q0: int = if q < i { q } else { q + 1 };
        assert(t[p] == s[p0] && t[q] == s[q0]);
    }
}

/// In a sorted store the ids are pairwise distinct, so the entry under an id
/// is the only one with it.
pub proof fn lemma_store_sorted_unique(s: Seq<EscrowEntryView>, i: int, j: int)
    requires
        store_sorted(s),
        0 <= i < s.len(),
        0 <= j < s.len(),
        i != j,
    ensures
        s[i].id != s[j].id,
{
    if i < j {
        lemma_lex_lt_irreflexive(s[i].id);
    } else {
        lemma_lex_lt_irreflexive(s[j].id);
    }
}

/// The persistent record store, kept ascending by id.
pub struct EscrowStore {
    entries: Vec<EscrowEntry>,
}

impl View for EscrowStore {
    type V = Seq<EscrowEntryView>;

    closed spec fn view(&self) -> Seq<EscrowEntryView> {
        self.entries.deep_view()
    }
}

impl EscrowStore {
    /// A store holding no records.
    pub fn new() -> (r: EscrowStore)
        ensures
            r@.len() == 0,
            store_sorted(r@),
    {
        EscrowStore { entries: Vec::new() }
    }

    /// Looks a record up by id.
    #[verifier::loop_isolation(false)]
    pub fn get(&self, id: &String) -> (r: Option<&Escrow>)
        ensures
            match r {
                Some(e) => store_contains(self@, id@) && e@ == store_get(self@, id@),
                None => !store_contains(self@, id@),
            },
    {
        let n: usize = self.entries.len();
        let mut i: usize = 0;
        while i < n
            invariant
                i <= n,
                forall|j: int| 0 <= j < i ==> (#[trigger] self@[j]).id != id@,
            decreases n - i,
        {
            if str_eq(&self.entries[i].id, id) {
                proof {
                    lemma_store_index_at(self@, id@, i as int);
                }
                return Some(&self.entries[i].escrow);
            }
            assert(self@[i as int].id != id@);
            i = i + 1;
        }
        proof {
            lemma_store_index(self@, id@);
        }
        None
    }

    /// Adds a record under a fresh id, keeping ascending order; reports
    /// `AlreadyInUse` and changes nothing when the id is taken.
    #[verifier::loop_isolation(false)]
    pub fn insert_new(&mut self, id: String, escrow: Escrow) -> (r: Result<(), ContractError>)
        requires
            store_sorted(old(self)@),
        ensures
            store_sorted(final(self)@),
            r is Ok <==> !store_contains(old(self)@, id@),
            r is Ok ==> final(self)@ == store_insert(old(self)@, id@, escrow@),
            r is Err ==> final(self)@ == old(self)@ && r == Err::<(), ContractError>(
                ContractError::AlreadyInUse {},
            ),
    {
        let n: usize = self.entries.len();
        let mut i: usize = 0;
        while i < n
            invariant
                i <= n,
                forall|j: int| 0 <= j < i ==> lex_lt((#[trigger] self@[j]).id, id@),
            decreases n - i,
        {
            if !str_lt(&self.entries[i].id, &id) {
                break;
            }
            assert(lex_lt(self@[i as int].id, id@));
            i = i + 1;
        }
        assert(i < n ==> !lex_lt(self@[i as int].id, id@));
        if i < n && str_eq(&self.entries[i].id, &id) {
            proof {
                lemma_store_index_at(self@, id@, i as int);
            }
            return Err(ContractError::AlreadyInUse {});
        }
        proof {
            lemma_insert_pos_at(self@, id@, i as int);
            lemma_store_insert_sorted(self@, id@, escrow@, i as int);
            if i < n {
                lemma_lex_lt_irreflexive(id@);
            }
            assert forall|j: int| 0 <= j < self@.len() implies (#[trigger] self@[j]).id
                != id@ by {
                if j < i {
                    lemma_lex_lt_irreflexive(id@);
                } else if j > i {
                    assert(lex_lt(self@[i as int].id, self@[j].id));
                    if self@[j].id == id@ {
                        lemma_lex_lt_connected(self@[i as int].id, id@);
                        lemma_lex_lt_transitive(id@, self@[i as int].id, id@);
                        lemma_lex_lt_irreflexive(id@);
                    }
                }
            }
            lemma_store_index(self@, id@);
        }
        self.entries.insert(i, EscrowEntry { id, escrow });
        assert(final(self)@ =~= store_insert(old(self)@, id@, escrow@));
        Ok(())
    }

    /// Replaces the record under an existing id.
    #[verifier::loop_isolation(false)]
    pub fn set_escrow(&mut self, id: &String, escrow: Escrow)
        requires
            store_contains(old(self)@, id@),
        ensures
            final(self)@ == store_update(old(self)@, id@, escrow@),
            store_sorted(old(self)@) ==> store_sorted(final(self)@),
    {
        let n: usize = self.entries.len();
        let mut i: usize = 0;
        proof {
            lemma_store_index(self@, id@);
        }
        while i < n
            invariant
                i <= n,
                n == self@.len(),
                self@ == old(self)@,
                forall|j: int| 0 <= j < i ==> (#[trigger] self@[j]).id != id@,
            decreases n - i,
        {
            if str_eq(&self.entries[i].id, id) {
                proof {
                    lemma_store_index_at(self@, id@, i as int);
                }
                let ghost old_view = self@;
                let elem: &mut EscrowEntry = &mut self.entries[i];
                elem.escrow = escrow;
                proof {
                    assert(final(self)@ =~= store_update(old_view, id@, escrow@));
                    if store_sorted(old_view) {
                        assert forall|p: int, q: int|
                            0 <= p < q < final(self)@.len() implies lex_lt(
                            (#[trigger] final(self)@[p]).id,
                            (#[trigger] final(self)@[q]).id,
                        ) by {
                            assert(final(self)@[p].id == old_view[p].id);
                            assert(final(self)@[q].id == old_view[q].id);
                        }
                    }
                }
                return;
            }
            assert(self@[i as int].id != id@);
            i = i + 1;
        }
        proof {
            lemma_store_index(self@, id@);
            assert(false);
        }
    }

    /// Deletes and returns the record under `id`, if any.
    #[verifier::loop_isolation(false)]
    pub fn remove(&mut self, id: &String) -> (r: Option<Escrow>)
        ensures
            match r {
                Some(e) => store_contains(old(self)@, id@) && e@ == store_get(old(self)@, id@)
                    && final(self)@ == store_remove(old(self)@, id@),
                None => !store_contains(old(self)@, id@) && final(self)@ == old(self)@,
            },
            store_sorted(old(self)@) ==> store_sorted(final(self)@),
    {
        let n: usize = self.entries.len();
        let mut i: usize = 0;
        while i < n
            invariant
                i <= n,
                n == self@.len(),
                self@ == old(self)@,
                forall|j: int| 0 <= j < i ==> (#[trigger] self@[j]).id != id@,
            decreases n - i,
        {
            if str_eq(&self.entries[i].id, id) {
                proof {
                    lemma_store_index_at(self@, id@, i as int);
                    if store_sorted(self@) {
                        lemma_store_remove_sorted(self@, i as int);
                    }
                }
                let entry = self.entries.remove(i);
                assert(final(self)@ =~= store_remove(old(self)@, id@));
                return Some(entry.escrow);
            }
            assert(self@[i as int].id != id@);
            i = i + 1;
        }
        proof {
            lemma_store_index(self@, id@);
        }
        None
    }

    /// All ids in ascending order.
    #[verifier::loop_isolation(false)]
    pub fn ids(&self) -> (r: Vec<String>)
        ensures
            r.deep_view() == store_ids(self@),
    {
        let n: usize = self.entries.len();
        let mut r: Vec<String> = Vec::new();
        let mut i: usize = 0;
        while i < n
            invariant
                i <= n,
                r.deep_view() =~= store_ids(self@).subrange(0, i as int),
            decreases n - i,
        {
            r.push(self.entries[i].id.clone());
            assert(r.deep_view() =~= store_ids(self@).subrange(0, i as int + 1));
            i = i + 1;
        }
        assert(r.deep_view() =~= store_ids(self@));
        r
    }
}

/// Everything the contract persists: the counter state, the donation
/// threshold, and the escrow records.
pub struct Storage {
    pub state: State,
    pub minimal_donation: Coin,
    pub escrows: EscrowStore,
}

impl Storage {
    /// The store's well-formedness: records stand in ascending id order.
    pub open spec fn wf(&self) -> bool {
        store_sorted(self.escrows@)
    }
}

/// The ids of all registered escrows, ascending.
pub fn all_escrow_ids(storage: &Storage) -> (r: Vec<String>)
    ensures
        r.deep_view() == store_ids(storage.escrows@),
{
    storage.escrows.ids()
}


/// Where the insertion point lies: after exactly the entries that precede
/// the new id.
pub proof fn lemma_insert_pos(s: Seq<EscrowEntryView>, id: Seq<char>)
    ensures
        0 <= insert_pos(s, id) <= s.len(),
        forall|j: int| 0 <= j < insert_pos(s, id) ==> lex_lt((#[trigger] s[j]).id, id),
        insert_pos(s, id) < s.len() ==> !lex_lt(s[insert_pos(s, id)].id, id),
    decreases s.len(),
{
    if s.len() > 0 && lex_lt(s[0].id, id) {
        lemma_insert_pos(s.drop_first(), id);
        assert forall|j: int|
            0 <= j < insert_pos(s, id) implies lex_lt((#[trigger] s[j]).id, id) by {
            if j > 0 {
                assert(s[j] == s.drop_first()[j - 1]);
            }
        }
        if insert_pos(s, id) < s.len() {
            assert(s[insert_pos(s, id)] == s.drop_first()[insert_pos(s, id) - 1]);
        }
    }
}

/// After adding a record under a fresh id, that id holds exactly the added
/// record.
pub proof fn lemma_store_get_insert(s: Seq<EscrowEntryView>, id: Seq<char>, e: EscrowView)
    requires
        store_sorted(s),
        !store_contains(s, id),
    ensures
        store_contains(store_insert(s, id, e), id),
        store_get(store_insert(s, id, e), id) == e,
{
    let p = insert_pos(s, id);
    lemma_insert_pos(s, id);
    let t = store_insert(s, id, e);
    assert(t[p].id == id);
    assert forall|j: int| 0 <= j < p implies (#[trigger] t[j]).id != id by {
        assert(t[j] == s[j]);
        lemma_lex_lt_irreflexive(id);
    }
    lemma_store_index_at(t, id, p);
}

/// Replacing the record under an id keeps every id in place, and that id
/// then holds exactly the new record.
pub proof fn lemma_store_get_update(s: Seq<EscrowEntryView>, id: Seq<char>, e: EscrowView)
    requires
        store_contains(s, id),
    ensures
        store_update(s, id, e).len() == s.len(),
        store_contains(store_update(s, id, e), id),
        store_get(store_update(s, id, e), id) == e,
        forall|j: int|
            0 <= j < s.len() ==> (#[trigger] store_update(s, id, e)[j]).id == s[j].id,
{
    let i = store_index(s, id);
    lemma_store_index(s, id);
    let t = store_update(s, id, e);
    assert forall|j: int| 0 <= j < i implies (#[trigger] t[j]).id != id by {
        assert(t[j] == s[j]);
    }
    lemma_store_index_at(t, id, i);
}

/// After deleting the record under an id, no record stands under it.
pub proof fn lemma_store_remove_not_contains(s: Seq<EscrowEntryView>, id: Seq<char>)
    requires
        store_sorted(s),
        store_contains(s, id),
    ensures
        !store_contains(store_remove(s, id), id),
{
    let i = store_index(s, id);
    lemma_store_index(s, id);
    let t = store_remove(s, id);
    assert forall|j: int| 0 <= j < t.len() implies (#[trigger] t[j]).id != id by {
        let j0: int = if j < i {
            j
        } else {
            j + 1
        };
        assert(t[j] == s[j0]);
        lemma_store_sorted_unique(s, i, j0);
    }
    lemma_store_index(t, id);
    if store_index(t, id) >= 0 {
        assert(t[store_index(t, id)].id == id);
    }
}

} // verus!
