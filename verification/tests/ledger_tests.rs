use arena_core::engine::Engine;
use arena_core::error::ArenaError;
use arena_core::ledger::{Ledger, LedgerCall};
use arena_core::tick::{price_of_tick, tick_of_price};
use arena_core::{AccountId, PoolKey};

const SCALE: u128 = 1_000_000_000;

fn pool_key() -> PoolKey {
    PoolKey {
        currency0: AccountId(1),
        currency1: AccountId(2),
        fee: 500,
        tick_spacing: 10,
        hooks: AccountId(0),
    }
}

#[test]
fn grid_prices_follow_the_ratio() {
    assert_eq!(price_of_tick(0).unwrap(), 1_000_000_000);
    assert_eq!(price_of_tick(1).unwrap(), 1_000_100_000);
    assert_eq!(price_of_tick(2).unwrap(), 1_000_200_010);
    assert_eq!(price_of_tick(-1).unwrap(), 999_900_009);
}

#[test]
fn tick_of_price_brackets() {
    assert_eq!(tick_of_price(SCALE).unwrap(), 0);
    assert_eq!(tick_of_price(1_000_100_000).unwrap(), 1);
    assert_eq!(tick_of_price(1_000_099_999).unwrap(), 0);
    assert_eq!(tick_of_price(999_999_999).unwrap(), -1);
}

#[test]
fn sequence_numbers_are_per_identity_and_increasing() {
    let mut ledger = Ledger::new(SCALE);
    assert_eq!(ledger.next_sequence_number(AccountId(7)), 0);
    assert_eq!(ledger.next_sequence_number(AccountId(7)), 1);
    assert_eq!(ledger.next_sequence_number(AccountId(8)), 0);
    assert_eq!(ledger.next_sequence_number(AccountId(7)), 2);
}

#[test]
fn price_update_rejects_zero() {
    let mut ledger = Ledger::new(SCALE);
    let r = ledger.submit_price_update(0);
    assert!(matches!(r, Err(ArenaError::InvalidNumericInput)));
    assert_eq!(ledger.price, SCALE);
    let r = ledger.submit_price_update(2 * SCALE);
    assert!(r.is_ok());
    assert_eq!(ledger.price, 2 * SCALE);
}

#[test]
fn liquidity_accumulates_over_positions() {
    let mut ledger = Ledger::new(SCALE);
    ledger
        .submit_liquidity_change(AccountId(1), 500, -10, 10)
        .unwrap();
    ledger
        .submit_liquidity_change(AccountId(1), 250, 0, 5)
        .unwrap();
    ledger
        .submit_liquidity_change(AccountId(1), -100, -10, 10)
        .unwrap();
    assert_eq!(ledger.get_tick_liquidity(0), 650);
    assert_eq!(ledger.get_tick_liquidity(7), 400);
    assert_eq!(ledger.get_tick_liquidity(-10), 400);
    assert_eq!(ledger.get_tick_liquidity(10), 0);
}

#[test]
fn negative_net_liquidity_reads_as_zero() {
    let mut ledger = Ledger::new(SCALE);
    ledger
        .submit_liquidity_change(AccountId(1), -700, -5, 5)
        .unwrap();
    assert_eq!(ledger.get_tick_liquidity(0), 0);
}

#[test]
fn engine_attaches_consecutive_nonces() {
    let mut ledger = Ledger::new(SCALE);
    ledger.set_pool(pool_key(), 500, 10, SCALE).unwrap();
    let mut engine = Engine::new(AccountId(0), ledger);
    engine
        .modify_liquidity(1_000, -50, 50, AccountId(3))
        .unwrap();
    engine
        .modify_liquidity(2_000, -50, 50, AccountId(3))
        .unwrap();
    let nonces: Vec<u64> = engine
        .ledger
        .calls
        .iter()
        .filter_map(|c| match c {
            LedgerCall::LiquidityChange { nonce, .. } => Some(*nonce),
            _ => None,
        })
        .collect();
    assert_eq!(nonces, vec![0, 1]);
}

#[test]
fn engine_rejects_a_malformed_range() {
    let mut ledger = Ledger::new(SCALE);
    ledger.set_pool(pool_key(), 500, 10, SCALE).unwrap();
    let mut engine = Engine::new(AccountId(0), ledger);
    let calls_before = engine.ledger.calls.len();
    let r = engine.modify_liquidity(1_000, 50, -50, AccountId(3));
    assert!(matches!(r, Err(ArenaError::LedgerCallFailed)));
    assert_eq!(engine.ledger.calls.len(), calls_before);
}

#[test]
fn equalize_moves_the_pool_to_the_reference() {
    let mut ledger = Ledger::new(SCALE);
    ledger.set_pool(pool_key(), 500, 10, 1_100_000_000).unwrap();
    let before = ledger.pool.unwrap().tick;
    assert!(before > 0);
    ledger.equalize_price(AccountId(0), 10).unwrap();
    let after = ledger.pool.unwrap().tick;
    assert_eq!(after, 0);
    assert!(matches!(
        ledger.calls.last().unwrap(),
        LedgerCall::Equalize { depth: 10, .. }
    ));
}

#[test]
fn swap_moves_the_tick_in_the_trade_direction() {
    let mut ledger = Ledger::new(SCALE);
    ledger.set_pool(pool_key(), 500, 10, SCALE).unwrap();
    assert_eq!(ledger.pool.unwrap().tick, 0);
    // 3.0 of input moves the pool three ticks.
    ledger
        .submit_swap(AccountId(4), 3 * SCALE, true, 1)
        .unwrap();
    assert_eq!(ledger.pool.unwrap().tick, -3);
    ledger
        .submit_swap(AccountId(4), 5 * SCALE, false, u128::MAX)
        .unwrap();
    assert_eq!(ledger.pool.unwrap().tick, 2);
}
