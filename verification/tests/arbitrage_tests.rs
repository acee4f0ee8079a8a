use arena_core::arbitrageur::{Arbitrageur, SwapPlan};
use arena_core::engine::arbitrageur::Arbitrageur as ArbitrageurRole;
use arena_core::engine::Engine;
use arena_core::ledger::{Ledger, LedgerCall};
use arena_core::deployer::{DeploymentResponse, PoolParams};
use arena_core::{AccountId, PoolKey, Signal};

const SCALE: u128 = 1_000_000_000;

fn pool_key() -> PoolKey {
    PoolKey {
        currency0: AccountId(1),
        currency1: AccountId(2),
        fee: 3000,
        tick_spacing: 1,
        hooks: AccountId(0),
    }
}

fn ledger_with_pool(price: u128, sqrt_price: u128) -> Ledger {
    let mut ledger = Ledger::new(price);
    ledger
        .set_pool(pool_key(), 3000, 1, sqrt_price)
        .unwrap();
    ledger
}

fn signal_for(ledger: &Ledger) -> Signal {
    let pool = ledger.pool.unwrap();
    Signal::new(
        ledger.price,
        Some(0),
        pool.tick,
        pool.sqrt_price,
        AccountId(0),
        pool.key,
        AccountId(0),
        ledger.price as i128,
        AccountId(0),
    )
}

#[test]
fn no_trade_when_pool_brackets_reference() {
    // Pool and reference both at 1.0: the pool's tick already brackets the
    // reference price, so the sizer holds.
    let ledger = ledger_with_pool(SCALE, SCALE);
    let agent = Arbitrageur::new();
    let plan = agent.plan(&ledger).unwrap();
    assert_eq!(plan, SwapPlan::Hold);
}

#[test]
fn no_swap_call_issued_at_the_boundary() {
    let ledger = ledger_with_pool(SCALE, SCALE);
    let mut engine = Engine::new(AccountId(0), ledger);
    let signal = signal_for(&engine.ledger);
    let mut agent = Arbitrageur::new();
    let calls_before = engine.ledger.calls.len();
    agent
        .arbitrage(&signal, AccountId(0), &mut engine)
        .unwrap();
    assert_eq!(engine.ledger.calls.len(), calls_before);
}

#[test]
fn direction_reduces_price_when_pool_is_high() {
    // Pool at 1.0 (tick 0), reference at 0.8: the pool prices above the
    // reference, so the sizer must sell the first asset, and the ledger's
    // swap model must not raise the pool's tick.
    let mut ledger = ledger_with_pool(8 * SCALE / 10, SCALE);
    ledger
        .submit_liquidity_change(AccountId(9), 500, -3_000, 100)
        .unwrap();
    let pool_before = ledger.pool.unwrap();
    let mut engine = Engine::new(AccountId(0), ledger);

    let agent = Arbitrageur::new();
    let plan = agent.plan(&engine.ledger).unwrap();
    match plan {
        SwapPlan::Trade {
            amount,
            zero_for_one,
            sqrt_price_limit,
        } => {
            assert!(amount > 0);
            assert!(zero_for_one);
            assert_eq!(sqrt_price_limit, pool_before.sqrt_price);
        }
        SwapPlan::Hold => panic!("expected a trade against a mispriced pool"),
    }

    let signal = signal_for(&engine.ledger);
    let mut agent = agent;
    agent
        .arbitrage(&signal, AccountId(0), &mut engine)
        .unwrap();
    let pool_after = engine.ledger.pool.unwrap();
    assert!(pool_after.tick <= pool_before.tick);
    assert!(pool_after.sqrt_price <= pool_before.sqrt_price);
    assert!(matches!(
        engine.ledger.calls.last().unwrap(),
        LedgerCall::Swap {
            zero_for_one: true,
            ..
        }
    ));
}

#[test]
fn zero_liquidity_yields_zero_trade() {
    // Pool mispriced but no liquidity anywhere: the guarded formula must
    // yield a zero-size trade, not a division failure.
    let ledger = ledger_with_pool(SCALE, 1_100_000_000);
    let agent = Arbitrageur::new();
    let plan = agent.plan(&ledger).unwrap();
    assert_eq!(plan, SwapPlan::Hold);
}

#[test]
fn trade_amount_matches_the_closed_form() {
    // a = 2.0, b = 1.0, zero fee: k = 2.0, a/b = 2.0, cost = 1.0,
    // trade = 1.0.
    let amount = Arbitrageur::trade_amount(2 * SCALE, SCALE, 0).unwrap();
    assert_eq!(amount, SCALE);
    assert_eq!(Arbitrageur::trade_amount(0, SCALE, 0).unwrap(), 0);
    assert_eq!(Arbitrageur::trade_amount(SCALE, 0, 0).unwrap(), 0);
}

#[test]
fn profit_matches_the_formula() {
    // dy = 1.0 at reference 2.0 against pool 1.0 with 0.3% fee and unit
    // liquidity: the price doubles and the net profit is
    // 2.0 - 1 / (0.997 * 2.0).
    let (profit, new_price) =
        Arbitrageur::profit(SCALE, 2 * SCALE, SCALE, 3000, SCALE);
    assert_eq!(new_price, 2 * SCALE);
    assert_eq!(profit, 1_498_495_487);
}

#[test]
fn optimal_swap_converges_on_the_profit_curve() {
    let mut ledger = ledger_with_pool(SCALE, 1_100_000_000);
    ledger
        .submit_liquidity_change(AccountId(9), 50_000_000_000, -100, 2_000)
        .unwrap();
    let agent = Arbitrageur::new();
    let pool = ledger.pool.unwrap();
    assert_eq!(pool.tick, 1906);
    let r = agent.optimal_swap(&ledger, SCALE, 121 * SCALE / 100, 3000, pool.tick);
    // On this curve the net profit keeps growing with the input, so the
    // search converges to the top of its bracket, one half-tolerance shy
    // of the cap.
    assert_eq!(r, 999_999_999_999_545);
    assert!(r <= 1_000_000 * SCALE);
}

#[test]
fn startup_completes_once_everything_is_announced() {
    let mut agent = Arbitrageur::new();
    assert!(!agent.startup(&DeploymentResponse::PoolManager(AccountId(1))));
    assert!(!agent.startup(&DeploymentResponse::Fetcher(AccountId(2))));
    assert!(!agent.startup(&DeploymentResponse::LiquidExchange(AccountId(3))));
    let done = agent.startup(&DeploymentResponse::Pool(PoolParams {
        key: pool_key(),
        sqrt_price: SCALE,
        hook_data: Vec::new(),
    }));
    assert!(done);
}

#[test]
fn process_trades_only_on_a_price_gap() {
    let ledger = ledger_with_pool(SCALE, SCALE);
    let agent = Arbitrageur::new();
    let signal = signal_for(&ledger);
    assert_eq!(agent.process(&signal, &ledger).unwrap(), None);

    // Reference drops to 0.8 while the pool stays at 1.0. This ledger has
    // no liquidity anywhere, so the search must size the trade at zero.
    let mut low = ledger;
    low.submit_price_update(8 * SCALE / 10).unwrap();
    let signal = signal_for(&low);
    match agent.process(&signal, &low).unwrap() {
        Some((amount, zero_for_one)) => {
            assert!(zero_for_one);
            assert_eq!(amount, 0);
        }
        None => panic!("expected a search result on a price gap"),
    }

    // With liquidity in reach the same gap sizes a positive trade.
    let mut funded = ledger_with_pool(8 * SCALE / 10, SCALE);
    funded
        .submit_liquidity_change(AccountId(9), 500, -3_000, 100)
        .unwrap();
    let signal = signal_for(&funded);
    match agent.process(&signal, &funded).unwrap() {
        Some((amount, zero_for_one)) => {
            assert!(zero_for_one);
            assert!(amount > 0);
        }
        None => panic!("expected a search result on a price gap"),
    }
}

#[test]
fn optimal_swap_sizes_zero_on_an_empty_range() {
    // No liquidity anywhere the search can walk: the forced-zero rule of
    // the sizer applies to the bisection path too.
    let ledger = ledger_with_pool(SCALE, 1_100_000_000);
    let agent = Arbitrageur::new();
    let pool = ledger.pool.unwrap();
    let r = agent.optimal_swap(&ledger, SCALE, 121 * SCALE / 100, 3000, pool.tick);
    assert_eq!(r, 0);
}
