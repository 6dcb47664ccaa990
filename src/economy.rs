//! Player balances and the market.
use vstd::prelude::*;

use dashmap::DashMap;

verus! {

#[derive(Clone, Debug, PartialEq, Eq)]
pub struct MarketItem {
    pub id: u32,
    pub name: String,
    pub price: u32,
    pub quantity: u32,
}

#[derive(Clone, Copy, Debug, PartialEq, Eq, Structural)]
pub enum EconomyError {
    ItemNotFound,
    InsufficientFunds,
}

/// A player's balance; a player never credited has none.
pub open spec fn balance_of(balances: Map<u128, u32>, player: u128) -> u32 {
    if balances.contains_key(player) {
        balances[player]
    } else {
        0
    }
}

pub open spec fn saturating_add(a: u32, b: u32) -> u32 {
    if a + b > u32::MAX {
        u32::MAX
    } else {
        (a + b) as u32
    }
}

/// Balances after a credit.
pub open spec fn credited(balances: Map<u128, u32>, player: u128, amount: u32) -> Map<u128, u32> {
    balances.insert(player, saturating_add(balance_of(balances, player), amount))
}

/// The result of a purchase: the balances after it and what the buyer is told.
pub open spec fn purchase(
    balances: Map<u128, u32>,
    market: Map<u32, MarketItem>,
    player: u128,
    item_id: u32,
) -> (Map<u128, u32>, Result<(), EconomyError>) {
    if !market.contains_key(item_id) {
        (balances, Err(EconomyError::ItemNotFound))
    } else if balance_of(balances, player) < market[item_id].price {
        (balances, Err(EconomyError::InsufficientFunds))
    } else if balances.contains_key(player) {
        (balances.insert(player, (balances[player] - market[item_id].price) as u32), Ok(()))
    } else {
        (balances, Ok(()))
    }
}

/// Two purchases in a row of an item priced at exactly the buyer's
/// (non-zero) balance: the first succeeds and empties the balance, the
/// second is refused for insufficient funds.
pub proof fn lemma_exact_price_buys_once(
    balances: Map<u128, u32>,
    market: Map<u32, MarketItem>,
    player: u128,
    item_id: u32,
)
    requires
        market.contains_key(item_id),
        market[item_id].price == balance_of(balances, player),
        market[item_id].price > 0,
    ensures
        purchase(balances, market, player, item_id).1 == Ok::<(), EconomyError>(()),
        balance_of(purchase(balances, market, player, item_id).0, player) == 0,
        purchase(purchase(balances, market, player, item_id).0, market, player, item_id).1 == Err::<
            (),
            EconomyError,
        >(EconomyError::InsufficientFunds),
{
}

#[verifier::external_type_specification]
#[verifier::external_body]
#[verifier::reject_recursive_types(K)]
#[verifier::reject_recursive_types(V)]
#[verifier::reject_recursive_types(S)]
pub struct ExDashMap<K, V, S>(dashmap::DashMap<K, V, S>);

/// Contents of a balance table.
pub uninterp spec fn balance_table(m: DashMap<u128, u32>) -> Map<u128, u32>;

/// Contents of a market table.
pub uninterp spec fn market_table(m: DashMap<u32, MarketItem>) -> Map<u32, MarketItem>;

/// Relies on `dashmap::DashMap::new`: an empty map.
#[verifier::external_body]
fn new_balance_table() -> (r: DashMap<u128, u32>)
    ensures
        balance_table(r).dom() == Set::<u128>::empty(),
{
    DashMap::new()
}

/// Relies on `dashmap::DashMap::new`: an empty map.
#[verifier::external_body]
fn new_market_table() -> (r: DashMap<u32, MarketItem>)
    ensures
        market_table(r).dom() == Set::<u32>::empty(),
{
    DashMap::new()
}

/// Relies on `dashmap::DashMap::get`: the value under the key, if any.
#[verifier::external_body]
fn balance_lookup(m: &DashMap<u128, u32>, k: u128) -> (r: Option<u32>)
    ensures
        balance_table(*m).contains_key(k) ==> r == Some(balance_table(*m)[k]),
        !balance_table(*m).contains_key(k) ==> r is None,
{
    m.get(&k).map(|b| *b)
}

/// Relies on `dashmap::DashMap::insert`: the key now maps to the value.
#[verifier::external_body]
fn balance_store(m: &mut DashMap<u128, u32>, k: u128, v: u32)
    ensures
        balance_table(*final(m)) == balance_table(*old(m)).insert(k, v),
{
    m.insert(k, v);
}

/// Relies on `dashmap::DashMap::get`: the price of the item under the key,
/// if any.
#[verifier::external_body]
fn market_price(m: &DashMap<u32, MarketItem>, k: u32) -> (r: Option<u32>)
    ensures
        market_table(*m).contains_key(k) ==> r == Some(market_table(*m)[k].price),
        !market_table(*m).contains_key(k) ==> r is None,
{
    m.get(&k).map(|item| item.price)
}

/// Relies on `dashmap::DashMap::insert`: the key now maps to the item.
#[verifier::external_body]
fn market_store(m: &mut DashMap<u32, MarketItem>, k: u32, item: MarketItem)
    ensures
        market_table(*final(m)) == market_table(*old(m)).insert(k, item),
{
    m.insert(k, item);
}

/// Balances and the market, each in a sharded concurrent map.
pub struct EconomySystem {
    player_balances: DashMap<u128, u32>,
    market: DashMap<u32, MarketItem>,
}

impl EconomySystem {
    pub closed spec fn balances(&self) -> Map<u128, u32> {
        balance_table(self.player_balances)
    }

    pub closed spec fn market(&self) -> Map<u32, MarketItem> {
        market_table(self.market)
    }

    pub fn new() -> (r: EconomySystem)
        ensures
            r.balances() == Map::<u128, u32>::empty(),
            r.market() == Map::<u32, MarketItem>::empty(),
    {
        let r = EconomySystem { player_balances: new_balance_table(), market: new_market_table() };
        assert(r.balances() =~= Map::<u128, u32>::empty());
        assert(r.market() =~= Map::<u32, MarketItem>::empty());
        r
    }

    /// Lists an item on the market under its id, replacing any item with
    /// that id.
    pub fn add_market_item(&mut self, item: MarketItem)
        ensures
            final(self).balances() == old(self).balances(),
            final(self).market() == old(self).market().insert(item.id, item),
    {
        let id = item.id;
        market_store(&mut self.market, id, item);
    }

    pub fn balance(&self, player_id: u128) -> (r: u32)
        ensures
            r == balance_of(self.balances(), player_id),
    {
        match balance_lookup(&self.player_balances, player_id) {
            Some(b) => b,
            None => 0,
        }
    }

    /// Credits `amount` to the player, saturating at `u32::MAX`.
    pub fn add_currency(&mut self, player_id: u128, amount: u32)
        ensures
            final(self).balances() == credited(old(self).balances(), player_id, amount),
            final(self).market() == old(self).market(),
    {
        let current = self.balance(player_id);
        let updated = current.saturating_add(amount);
        balance_store(&mut self.player_balances, player_id, updated);
    }

    /// Buys an item: checks the price against the balance and debits it in
    /// one step. Stock is left as it is.
    pub fn buy_item(&mut self, player_id: u128, item_id: u32) -> (r: Result<(), EconomyError>)
        ensures
            (final(self).balances(), r) == purchase(
                old(self).balances(),
                old(self).market(),
                player_id,
                item_id,
            ),
            final(self).market() == old(self).market(),
    {
        let price = match market_price(&self.market, item_id) {
            Some(p) => p,
            None => {
                return Err(EconomyError::ItemNotFound);
            },
        };
        match balance_lookup(&self.player_balances, player_id) {
            Some(balance) => {
                if balance < price {
                    return Err(EconomyError::InsufficientFunds);
                }
                balance_store(&mut self.player_balances, player_id, balance - price);
                Ok(())
            },
            None => {
                if price > 0 {
                    return Err(EconomyError::InsufficientFunds);
                }
                Ok(())
            },
        }
    }
}

} // verus!
