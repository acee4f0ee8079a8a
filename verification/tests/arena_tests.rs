use arena_core::arena::{ArenaBuilder, ArenaEvent};
use arena_core::config::Config;
use arena_core::engine::arbitrageur::{EmptyArbitrageur, FixedArbitrageur};
use arena_core::engine::inspector::EmptyInspector;
use arena_core::engine::Engine;
use arena_core::error::ArenaError;
use arena_core::feed::{Feed, OrnsteinUhlenbeck};
use arena_core::ledger::LedgerCall;


use arena_core::strategy::{EmptyStrategy, Strategy};
use arena_core::{AccountId, Signal};

const SCALE: i128 = 1_000_000_000;

fn config(steps: usize) -> Config {
    Config::new(
        steps,
        0,
        2,
        Vec::new(),
        1_000_000_000,
        3000,
        1_000_000_000,
        AccountId(0),
    )
}

struct StrategyMock;

impl Strategy<i128, EmptyInspector> for StrategyMock {
    fn init(
        &mut self,
        identity: AccountId,
        _signal: &Signal,
        _inspector: &mut EmptyInspector,
        engine: &mut Engine,
    ) {
        engine
            .modify_liquidity(10_000_000, -200_000, 200_000, identity)
            .unwrap();
    }

    fn process(
        &mut self,
        _identity: AccountId,
        _signal: &Signal,
        _inspector: &mut EmptyInspector,
        _engine: &mut Engine,
    ) {
    }
}

#[test]
fn test_arena() {
    let builder: ArenaBuilder<i128, EmptyInspector, StrategyMock, OrnsteinUhlenbeck, FixedArbitrageur> =
        ArenaBuilder::new();

    let mut arena = builder
        .with_strategy(StrategyMock)
        .with_feed(
            OrnsteinUhlenbeck::new(SCALE, SCALE / 10, SCALE, SCALE / 10, SCALE / 10).unwrap(),
        )
        .with_inspector(EmptyInspector)
        .with_arbitrageur(FixedArbitrageur { depth: 10_000 })
        .with_seed(7)
        .build()
        .unwrap();

    arena.run(config(100)).unwrap();
}

#[test]
fn two_runs_same_seed_are_identical() {
    let mut histories: Vec<Vec<ArenaEvent>> = Vec::new();
    let mut final_values: Vec<i128> = Vec::new();
    let mut final_prices: Vec<u128> = Vec::new();
    let mut call_logs: Vec<Vec<LedgerCall>> = Vec::new();
    for _ in 0..2 {
        let builder: ArenaBuilder<
            i128,
            EmptyInspector,
            EmptyStrategy,
            OrnsteinUhlenbeck,
            FixedArbitrageur,
        > = ArenaBuilder::new();
        let mut arena = builder
            .with_strategy(EmptyStrategy)
            .with_strategy(EmptyStrategy)
            .with_feed(
                OrnsteinUhlenbeck::new(SCALE, SCALE / 10, SCALE, 3 * SCALE / 10, SCALE / 2)
                    .unwrap(),
            )
            .with_inspector(EmptyInspector)
            .with_arbitrageur(FixedArbitrageur { depth: 5 })
            .with_seed(99)
            .build()
            .unwrap();
        arena.run(config(10)).unwrap();
        histories.push(arena.history.clone());
        final_values.push(arena.feed.current_value());
        final_prices.push(arena.engine.ledger.price);
        call_logs.push(arena.engine.ledger.calls.clone());
    }
    assert_eq!(histories[0], histories[1]);
    assert_eq!(final_values[0], final_values[1]);
    assert_eq!(final_prices[0], final_prices[1]);
    assert_eq!(call_logs[0], call_logs[1]);
}

struct Recorder {
    pub seen: Vec<(u64, Option<usize>)>,
}

impl Strategy<i128, EmptyInspector> for Recorder {
    fn init(
        &mut self,
        _identity: AccountId,
        _signal: &Signal,
        _inspector: &mut EmptyInspector,
        _engine: &mut Engine,
    ) {
    }

    fn process(
        &mut self,
        identity: AccountId,
        signal: &Signal,
        _inspector: &mut EmptyInspector,
        _engine: &mut Engine,
    ) {
        self.seen.push((identity.0, signal.step));
    }
}

#[test]
fn scheduler_invokes_each_strategy_once_per_step_in_order() {
    let builder: ArenaBuilder<i128, EmptyInspector, Recorder, OrnsteinUhlenbeck, EmptyArbitrageur> =
        ArenaBuilder::new();
    let mut arena = builder
        .with_strategy(Recorder { seen: Vec::new() })
        .with_strategy(Recorder { seen: Vec::new() })
        .with_strategy(Recorder { seen: Vec::new() })
        .with_feed(OrnsteinUhlenbeck::new(SCALE, SCALE / 10, SCALE, 0, SCALE).unwrap())
        .with_inspector(EmptyInspector)
        .with_arbitrageur(EmptyArbitrageur)
        .with_seed(1)
        .build()
        .unwrap();
    arena.run(config(2)).unwrap();

    // The feed starts at its long-term mean with zero volatility, so every
    // pushed value is exactly 1.0.
    let expected = vec![
        ArenaEvent::StrategyInit { index: 0 },
        ArenaEvent::StrategyInit { index: 1 },
        ArenaEvent::StrategyInit { index: 2 },
        ArenaEvent::PriceAdvanced { step: 0, value: SCALE },
        ArenaEvent::ArbitrageDone { step: 0 },
        ArenaEvent::StrategyProcessed { index: 0, step: 0 },
        ArenaEvent::StrategyProcessed { index: 1, step: 0 },
        ArenaEvent::StrategyProcessed { index: 2, step: 0 },
        ArenaEvent::PriceAdvanced { step: 1, value: SCALE },
        ArenaEvent::ArbitrageDone { step: 1 },
        ArenaEvent::StrategyProcessed { index: 0, step: 1 },
        ArenaEvent::StrategyProcessed { index: 1, step: 1 },
        ArenaEvent::StrategyProcessed { index: 2, step: 1 },
    ];
    assert_eq!(arena.history, expected);

    for (i, strategy) in arena.strategies.iter().enumerate() {
        let identity = (i as u64) + 1;
        assert_eq!(
            strategy.seen,
            vec![(identity, Some(0)), (identity, Some(1))]
        );
    }

    // The handed-out signals: one per strategy and one for the
    // arbitrageur at initialization, then one for the arbitrageur and one
    // per strategy each step, each carrying its step.
    let signal_steps: Vec<Option<usize>> = arena.signals.iter().map(|s| s.step).collect();
    let expected_steps = vec![
        None,
        None,
        None,
        None,
        Some(0),
        Some(0),
        Some(0),
        Some(0),
        Some(1),
        Some(1),
        Some(1),
        Some(1),
    ];
    assert_eq!(signal_steps, expected_steps);
    for signal in &arena.signals {
        assert_eq!(signal.tick, 0);
        assert_eq!(signal.sqrt_price, 1_000_000_000);
    }
}

#[test]
fn end_to_end_noiseless_run() {
    let builder: ArenaBuilder<
        i128,
        EmptyInspector,
        EmptyStrategy,
        OrnsteinUhlenbeck,
        EmptyArbitrageur,
    > = ArenaBuilder::new();
    let mut arena = builder
        .with_strategy(EmptyStrategy)
        .with_feed(OrnsteinUhlenbeck::new(SCALE, SCALE / 10, SCALE, 0, SCALE).unwrap())
        .with_inspector(EmptyInspector)
        .with_arbitrageur(EmptyArbitrageur)
        .with_seed(3)
        .build()
        .unwrap();
    arena.run(config(5)).unwrap();

    // sigma = 0 and initial = mu: the noiseless recursion stays at the mean.
    assert_eq!(arena.feed.current_value(), SCALE);

    let price_updates = arena
        .engine
        .ledger
        .calls
        .iter()
        .filter(|c| matches!(c, LedgerCall::PriceUpdate { .. }))
        .count();
    assert_eq!(price_updates, 5);
}

#[test]
fn run_with_zero_steps_succeeds() {
    let builder: ArenaBuilder<
        i128,
        EmptyInspector,
        EmptyStrategy,
        OrnsteinUhlenbeck,
        EmptyArbitrageur,
    > = ArenaBuilder::new();
    let mut arena = builder
        .with_strategy(EmptyStrategy)
        .with_feed(OrnsteinUhlenbeck::new(SCALE, SCALE / 10, SCALE, 0, SCALE).unwrap())
        .with_inspector(EmptyInspector)
        .with_arbitrageur(EmptyArbitrageur)
        .with_seed(8)
        .build()
        .unwrap();
    arena.run(config(0)).unwrap();
    assert_eq!(
        arena.history,
        vec![ArenaEvent::StrategyInit { index: 0 }]
    );
}

#[test]
fn aborted_run_stops_at_the_failure() {
    // A feed already at the value cap with the mean far below: the first
    // step leaves the bounds, so the run aborts before any price push.
    let cap: i128 = 1_000_000_000_000_000_000;
    let builder: ArenaBuilder<
        i128,
        EmptyInspector,
        EmptyStrategy,
        OrnsteinUhlenbeck,
        EmptyArbitrageur,
    > = ArenaBuilder::new();
    let mut arena = builder
        .with_strategy(EmptyStrategy)
        .with_feed(
            OrnsteinUhlenbeck::new(cap, 1_000_000_000_000, -cap, 0, 1_000_000_000_000)
                .unwrap(),
        )
        .with_inspector(EmptyInspector)
        .with_arbitrageur(EmptyArbitrageur)
        .with_seed(8)
        .build()
        .unwrap();
    let r = arena.run(config(3));
    assert!(matches!(r, Err(ArenaError::InvalidNumericInput)));
    // Only the initialization happened: no price push, no strategy call.
    assert_eq!(
        arena.history,
        vec![ArenaEvent::StrategyInit { index: 0 }]
    );
}

#[test]
fn build_without_feed_is_a_configuration_error() {
    let builder: ArenaBuilder<
        i128,
        EmptyInspector,
        EmptyStrategy,
        OrnsteinUhlenbeck,
        EmptyArbitrageur,
    > = ArenaBuilder::new();
    let r = builder
        .with_inspector(EmptyInspector)
        .with_arbitrageur(EmptyArbitrageur)
        .build();
    assert!(matches!(r, Err(ArenaError::ConfigurationError)));
}

#[test]
fn error_messages_are_nonempty() {
    assert!(!ArenaError::LedgerCallFailed.message().is_empty());
    assert!(!ArenaError::ConfirmationTimeout.message().is_empty());
    assert!(!ArenaError::InvalidNumericInput.message().is_empty());
    assert!(!ArenaError::ConfigurationError.message().is_empty());
}

#[test]
fn default_builder_is_empty() {
    let builder: ArenaBuilder<
        i128,
        EmptyInspector,
        EmptyStrategy,
        OrnsteinUhlenbeck,
        EmptyArbitrageur,
    > = Default::default();
    assert!(builder.strategies.is_empty());
    assert!(builder.feed.is_none());
    assert!(builder.inspector.is_none());
    assert!(builder.arbitrageur.is_none());
    assert!(builder.seed.is_none());
}
