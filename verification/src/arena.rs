//! Defines the main simulation runtime.
//!
//! The arena owns the feed, the noise source, the engine with its ledger,
//! the arbitrageur and the registered strategies, and drives the
//! step-synchronized loop: advance the feed, push its value to the ledger,
//! let the arbitrageur act, then invoke every strategy once, in
//! registration order, each under its own identity. The run's schedule is
//! recorded in an event history whose shape the contract pins exactly, so
//! ordering and determinism are theorems rather than intentions.
use vstd::prelude::*;

verus! {

use crate::config::Config;
use crate::engine::arbitrageur::Arbitrageur;
use crate::engine::inspector::Inspector;
use crate::engine::Engine;
use crate::error::ArenaError;
use crate::feed::Feed;
use crate::fixed::SCALE;
use crate::ledger::Ledger;
use crate::rng::{gaussian_of, state_after, NoiseSource};
use crate::strategy::Strategy;
use crate::{AccountId, PoolKey, Signal};

/// One entry of a run's recorded schedule.
#[derive(Clone, Copy, PartialEq, Eq, Structural, Debug)]
pub enum ArenaEvent {
    /// A strategy was initialized, by registration index.
    StrategyInit {
        /// Registration index of the strategy.
        index: usize,
    },
    /// The feed advanced and its value was pushed to the ledger.
    PriceAdvanced {
        /// The step during which it happened.
        step: usize,
        /// The new scaled value.
        value: i128,
    },
    /// The arbitrageur was invoked.
    ArbitrageDone {
        /// The step during which it happened.
        step: usize,
    },
    /// A strategy processed the step's signal.
    StrategyProcessed {
        /// Registration index of the strategy.
        index: usize,
        /// The step during which it happened.
        step: usize,
    },
}

/// The events of one step, in order: the feed push, the arbitrage, then
/// every strategy once, in registration order.
pub open spec fn step_schedule(step: nat, n_strategies: nat, value: int) -> Seq<ArenaEvent> {
    seq![
        ArenaEvent::PriceAdvanced { step: step as usize, value: value as i128 },
        ArenaEvent::ArbitrageDone { step: step as usize },
    ] + Seq::new(
        n_strategies,
        |i: int| ArenaEvent::StrategyProcessed { index: i as usize, step: step as usize },
    )
}

/// A signal consistent with the pool's grid: its tick brackets its root
/// price under the standard tick-price relationship.
pub open spec fn signal_consistent(s: Signal) -> bool {
    &&& (s.sqrt_price as int) * (s.sqrt_price as int) <= crate::tick::price_of_tick_spec(
        s.tick as int,
    ) * (SCALE as int)
    &&& crate::tick::price_of_tick_spec(s.tick as int) * (SCALE as int) < (s.sqrt_price as int
        + 1) * (s.sqrt_price as int + 1)
}

/// The `step` fields of the signals handed out before the step loop: one
/// per strategy initialization and one for the arbitrageur's, all `None`.
pub open spec fn init_step_trace(n_strategies: nat) -> Seq<Option<usize>> {
    Seq::new(n_strategies + 1, |i: int| None::<usize>)
}

/// The `step` fields of the signals handed out during one step: one for
/// the arbitrageur and one per strategy, all carrying that step.
pub open spec fn one_step_trace(step: usize, n_strategies: nat) -> Seq<Option<usize>> {
    Seq::new(n_strategies + 1, |i: int| Some(step))
}

/// The `step` fields of every signal a full run hands out, in order.
pub open spec fn run_step_trace(n_strategies: nat, steps: nat) -> Seq<Option<usize>>
    decreases steps,
{
    if steps == 0 {
        init_step_trace(n_strategies)
    } else {
        run_step_trace(n_strategies, (steps - 1) as nat) + one_step_trace(
            (steps - 1) as usize,
            n_strategies,
        )
    }
}

/// The `step` fields of a signal sequence.
pub open spec fn steps_of(signals: Seq<Signal>) -> Seq<Option<usize>> {
    signals.map_values(|s: Signal| s.step)
}

/// Appending a signal appends its step field to the trace.
proof fn lemma_steps_of_push(s: Seq<Signal>, x: Signal)
    ensures
        steps_of(s.push(x)) =~= steps_of(s).push(x.step),
{
    assert forall|i: int| 0 <= i < s.len() + 1 implies steps_of(s.push(x))[i] == steps_of(
        s,
    ).push(x.step)[i] by {
        if i < s.len() {
            assert(s.push(x)[i] == s[i]);
        } else {
            assert(s.push(x)[i] == x);
        }
    }
}

/// The initialization events: every strategy once, in registration order.
pub open spec fn init_schedule(n_strategies: nat) -> Seq<ArenaEvent> {
    Seq::new(n_strategies, |i: int| ArenaEvent::StrategyInit { index: i as usize })
}

/// The feed's state after `n` steps of a run seeded with `noise_state`.
pub open spec fn feed_after<F: Feed>(feed: F, noise_state: u64, n: nat) -> F
    decreases n,
{
    if n == 0 {
        feed
    } else {
        feed_after(feed, noise_state, (n - 1) as nat).stepped(
            gaussian_of(state_after(noise_state, (12 * (n - 1)) as nat)),
        )
    }
}

/// The feed values of a run: the value after each of the first `n` steps,
/// driven by the noise the seeded source produces.
pub open spec fn feed_value_trace<F: Feed>(feed: F, noise_state: u64, n: nat) -> Seq<int>
    decreases n,
{
    if n == 0 {
        Seq::<int>::empty()
    } else {
        feed_value_trace(feed, noise_state, (n - 1) as nat).push(
            feed_after(feed, noise_state, n).value_spec(),
        )
    }
}

/// The full schedule of a run of `steps` steps with the given feed values.
pub open spec fn run_schedule(n_strategies: nat, steps: nat, values: Seq<int>) -> Seq<ArenaEvent>
    decreases steps,
{
    if steps == 0 {
        init_schedule(n_strategies)
    } else {
        run_schedule(n_strategies, (steps - 1) as nat, values) + step_schedule(
            (steps - 1) as nat,
            n_strategies,
            values[steps - 1],
        )
    }
}

/// Advancing a noise state twice concatenates the advance counts.
pub proof fn lemma_state_after_add(s: u64, a: nat, b: nat)
    ensures
        state_after(state_after(s, a), b) == state_after(s, a + b),
    decreases b,
{
    if b > 0 {
        lemma_state_after_add(s, a, (b - 1) as nat);
    }
}

/// A feed trace has one value per step.
pub proof fn lemma_trace_len<F: Feed>(feed: F, noise_state: u64, n: nat)
    ensures
        feed_value_trace(feed, noise_state, n).len() == n,
    decreases n,
{
    if n > 0 {
        lemma_trace_len(feed, noise_state, (n - 1) as nat);
    }
}

/// A longer feed trace agrees with a shorter one on the shared prefix.
pub proof fn lemma_trace_index<F: Feed>(feed: F, noise_state: u64, n: nat, i: nat)
    requires
        i < n,
    ensures
        feed_value_trace(feed, noise_state, n)[i as int] == feed_after(
            feed,
            noise_state,
            (i + 1) as nat,
        ).value_spec(),
    decreases n,
{
    lemma_trace_len(feed, noise_state, (n - 1) as nat);
    if i + 1 < n {
        lemma_trace_index(feed, noise_state, (n - 1) as nat, i);
    }
}

/// The schedule's length: one initialization event per strategy, then per
/// step one price push, one arbitrage, and one event per strategy.
pub proof fn lemma_schedule_len(n_strategies: nat, steps: nat, values: Seq<int>)
    ensures
        run_schedule(n_strategies, steps, values).len() == n_strategies + steps * (n_strategies
            + 2),
    decreases steps,
{
    if steps == 0 {
        assert(run_schedule(n_strategies, 0, values).len() == n_strategies);
        assert(0 * (n_strategies + 2) == 0) by (nonlinear_arith);
    } else {
        lemma_schedule_len(n_strategies, (steps - 1) as nat, values);
        assert(steps * (n_strategies + 2) == (steps - 1) * (n_strategies + 2) + (n_strategies
            + 2)) by (nonlinear_arith);
    }
}

/// Scheduler ordering: within every step, each strategy is invoked exactly
/// once, in registration order, after the step's feed advance and
/// arbitrage, and before the next step's feed advance.
pub proof fn lemma_schedule_ordering(
    n_strategies: nat,
    steps: nat,
    values: Seq<int>,
    s: nat,
    i: nat,
)
    requires
        s < steps,
        i < n_strategies,
    ensures
        run_schedule(n_strategies, steps, values)[(n_strategies + s * (n_strategies + 2)) as int]
            == (ArenaEvent::PriceAdvanced { step: s as usize, value: values[s as int] as i128 }),
        run_schedule(n_strategies, steps, values)[(n_strategies + s * (n_strategies + 2)
            + 1) as int] == (ArenaEvent::ArbitrageDone { step: s as usize }),
        run_schedule(n_strategies, steps, values)[(n_strategies + s * (n_strategies + 2) + 2
            + i) as int] == (ArenaEvent::StrategyProcessed { index: i as usize, step: s as usize }),
    decreases steps,
{
    lemma_schedule_len(n_strategies, (steps - 1) as nat, values);
    if s + 1 == steps {
        assert(s * (n_strategies + 2) == (steps - 1) * (n_strategies + 2));
    } else {
        lemma_schedule_ordering(n_strategies, (steps - 1) as nat, values, s, i);
        assert((s + 1) * (n_strategies + 2) <= (steps - 1) * (n_strategies + 2))
            by (nonlinear_arith)
            requires
                s + 1 <= steps - 1,
        ;
        assert(s * (n_strategies + 2) + (n_strategies + 2) == (s + 1) * (n_strategies + 2))
            by (nonlinear_arith);
    }
}

/// The number of schedule entries a predicate accepts.
pub open spec fn event_count(events: Seq<ArenaEvent>, accept: spec_fn(ArenaEvent) -> bool) -> int
    decreases events.len(),
{
    if events.len() == 0 {
        0
    } else {
        event_count(events.drop_last(), accept) + if accept(events.last()) {
            1int
        } else {
            0int
        }
    }
}

/// Counting distributes over concatenation.
pub proof fn lemma_event_count_concat(
    a: Seq<ArenaEvent>,
    b: Seq<ArenaEvent>,
    accept: spec_fn(ArenaEvent) -> bool,
)
    ensures
        event_count(a + b, accept) == event_count(a, accept) + event_count(b, accept),
    decreases b.len(),
{
    if b.len() == 0 {
        assert(a + b =~= a);
    } else {
        lemma_event_count_concat(a, b.drop_last(), accept);
        assert((a + b).drop_last() =~= a + b.drop_last());
        assert((a + b).last() == b.last());
    }
}

/// A generated block contributes one accepted entry when the predicate
/// accepts exactly one position, and none when it accepts none.
pub proof fn lemma_event_count_generated(
    n: nat,
    gen: spec_fn(int) -> ArenaEvent,
    accept: spec_fn(ArenaEvent) -> bool,
)
    ensures
        (forall|i: int| 0 <= i < n ==> !accept(#[trigger] gen(i))) ==> event_count(
            Seq::new(n, gen),
            accept,
        ) == 0,
        forall|j: int|
            0 <= j < n && accept(#[trigger] gen(j)) && (forall|i: int|
                0 <= i < n && i != j ==> !accept(#[trigger] gen(i))) ==> event_count(
                Seq::new(n, gen),
                accept,
            ) == 1,
    decreases n,
{
    if n > 0 {
        lemma_event_count_generated((n - 1) as nat, gen, accept);
        assert(Seq::new(n, gen).drop_last() =~= Seq::new((n - 1) as nat, gen));
        assert(Seq::new(n, gen).last() == gen(n - 1));
    }
}

/// Exact schedule counts: a run of `steps` steps pushes the reference
/// price exactly `steps` times, and invokes every registered strategy
/// exactly once per step.
pub proof fn lemma_schedule_counts(n_strategies: nat, steps: nat, values: Seq<int>, who: usize)
    requires
        (who as nat) < n_strategies,
        n_strategies <= usize::MAX,
    ensures
        event_count(
            run_schedule(n_strategies, steps, values),
            |e: ArenaEvent| e is PriceAdvanced,
        ) == steps,
        event_count(
            run_schedule(n_strategies, steps, values),
            |e: ArenaEvent| e matches ArenaEvent::StrategyProcessed { index, .. } && index == who,
        ) == steps,
    decreases steps,
{
    let is_price = |e: ArenaEvent| e is PriceAdvanced;
    let is_mine = |e: ArenaEvent|
        e matches ArenaEvent::StrategyProcessed { index, .. } && index == who;
    if steps == 0 {
        let gen = |i: int| ArenaEvent::StrategyInit { index: i as usize };
        lemma_event_count_generated(n_strategies, gen, is_price);
        lemma_event_count_generated(n_strategies, gen, is_mine);
    } else {
        lemma_schedule_counts(n_strategies, (steps - 1) as nat, values, who);
        let prior = run_schedule(n_strategies, (steps - 1) as nat, values);
        let block = step_schedule((steps - 1) as nat, n_strategies, values[steps - 1]);
        lemma_event_count_concat(prior, block, is_price);
        lemma_event_count_concat(prior, block, is_mine);
        let head = seq![
            ArenaEvent::PriceAdvanced {
                step: (steps - 1) as usize,
                value: values[steps - 1] as i128,
            },
            ArenaEvent::ArbitrageDone { step: (steps - 1) as usize },
        ];
        let gen = |i: int|
            ArenaEvent::StrategyProcessed { index: i as usize, step: (steps - 1) as usize };
        let tail = Seq::new(n_strategies, gen);
        lemma_event_count_concat(head, tail, is_price);
        lemma_event_count_concat(head, tail, is_mine);
        let pa = ArenaEvent::PriceAdvanced {
            step: (steps - 1) as usize,
            value: values[steps - 1] as i128,
        };
        let ad = ArenaEvent::ArbitrageDone { step: (steps - 1) as usize };
        assert(head.last() == ad);
        assert(head.drop_last() =~= seq![pa]);
        assert(head.drop_last().last() == pa);
        assert(head.drop_last().drop_last() =~= Seq::<ArenaEvent>::empty());
        assert(event_count(head.drop_last().drop_last(), is_price) == 0);
        assert(event_count(head.drop_last().drop_last(), is_mine) == 0);
        assert(is_price(pa));
        assert(!is_price(ad));
        assert(!is_mine(pa));
        assert(!is_mine(ad));
        assert(event_count(head.drop_last(), is_price) == 1);
        assert(event_count(head.drop_last(), is_mine) == 0);
        assert(event_count(head, is_price) == 1);
        assert(event_count(head, is_mine) == 0);
        lemma_event_count_generated(n_strategies, gen, is_price);
        lemma_event_count_generated(n_strategies, gen, is_mine);
        assert(forall|i: int| 0 <= i < n_strategies ==> !is_price(#[trigger] gen(i)));
        assert(is_mine(gen(who as int)));
        assert forall|i: int| 0 <= i < n_strategies && i != who as int implies !is_mine(
            #[trigger] gen(i),
        ) by {
            assert(gen(i) == (ArenaEvent::StrategyProcessed {
                index: i as usize,
                step: (steps - 1) as usize,
            }));
        }
        assert(event_count(tail, is_mine) == 1);
        assert(event_count(tail, is_price) == 0);
    }
}

/// Prefix relations chain.
proof fn lemma_prefix_trans(a: Seq<ArenaEvent>, b: Seq<ArenaEvent>, c: Seq<ArenaEvent>)
    requires
        a.is_prefix_of(b),
        b.is_prefix_of(c),
    ensures
        a.is_prefix_of(c),
{
    assert(c.subrange(0, a.len() as int) =~= a) by {
        assert forall|i: int| 0 <= i < a.len() implies c.subrange(0, a.len() as int)[i]
            == a[i] by {
            assert(a[i] == b.subrange(0, a.len() as int)[i]);
            assert(b[i] == c.subrange(0, b.len() as int)[i]);
        }
    }
}

/// A shorter run's schedule is a prefix of a longer one's.
pub proof fn lemma_schedule_prefix(n_strategies: nat, k: nat, steps: nat, values: Seq<int>)
    requires
        k <= steps,
    ensures
        run_schedule(n_strategies, k, values).is_prefix_of(
            run_schedule(n_strategies, steps, values),
        ),
    decreases steps,
{
    let a = run_schedule(n_strategies, k, values);
    if k == steps {
        assert(run_schedule(n_strategies, steps, values).subrange(0, a.len() as int) =~= a);
    } else {
        lemma_schedule_prefix(n_strategies, k, (steps - 1) as nat, values);
        let b = run_schedule(n_strategies, (steps - 1) as nat, values);
        let c = run_schedule(n_strategies, steps, values);
        assert(c.subrange(0, a.len() as int) =~= a) by {
            assert forall|i: int| 0 <= i < a.len() implies c.subrange(0, a.len() as int)[i]
                == a[i] by {
                assert(a[i] == b.subrange(0, a.len() as int)[i]);
            }
        }
    }
}

/// What an aborted run leaves behind: the recorded history is a prefix
/// of the full schedule, and the feed stands at some step boundary no
/// further than the configured step count — nothing later was invoked and
/// the feed was not advanced further.
pub open spec fn aborted_run_ok<F: Feed>(
    feed0: F,
    noise0: u64,
    n_strategies: nat,
    steps: nat,
    hist: Seq<ArenaEvent>,
    feed: F,
) -> bool {
    &&& hist.is_prefix_of(
        run_schedule(n_strategies, steps, feed_value_trace(feed0, noise0, steps)),
    )
    &&& exists|k: nat| k <= steps && #[trigger] feed_after(feed0, noise0, k) == feed
}

/// What an aborted step leaves behind: the history is a prefix of the
/// full schedule, and the feed stands at a step boundary no further than
/// the abort.
proof fn lemma_abort_state<F: Feed>(
    feed0: F,
    noise0: u64,
    n: nat,
    step: usize,
    steps: nat,
    values: Seq<int>,
    pre_hist: Seq<ArenaEvent>,
    hist: Seq<ArenaEvent>,
    pre_feed: F,
    feed: F,
)
    requires
        (step as nat) < steps,
        values == feed_value_trace(feed0, noise0, steps),
        pre_hist == run_schedule(n, step as nat, values),
        pre_feed == feed_after(feed0, noise0, step as nat),
        feed == pre_feed || feed == pre_feed.stepped(
            gaussian_of(state_after(noise0, (12 * step) as nat)),
        ),
        hist == pre_hist || hist == pre_hist.push(
            ArenaEvent::PriceAdvanced { step, value: feed.value_spec() as i128 },
        ),
        hist == pre_hist.push(
            ArenaEvent::PriceAdvanced { step, value: feed.value_spec() as i128 },
        ) ==> feed == pre_feed.stepped(gaussian_of(state_after(noise0, (12 * step) as nat))),
    ensures
        hist.is_prefix_of(run_schedule(n, steps, values)),
        exists|k: nat| k <= steps && #[trigger] feed_after(feed0, noise0, k) == feed,
        aborted_run_ok(feed0, noise0, n, steps, hist, feed),
{
    lemma_trace_index(feed0, noise0, steps, step as nat);
    if feed == pre_feed {
        assert(feed_after(feed0, noise0, step as nat) == feed);
    } else {
        assert(feed_after(feed0, noise0, (step + 1) as nat) == feed);
    }
    lemma_schedule_prefix(n, step as nat, steps, values);
    if hist == pre_hist {
        assert(hist.is_prefix_of(run_schedule(n, steps, values)));
    } else {
        let pa = ArenaEvent::PriceAdvanced { step, value: feed.value_spec() as i128 };
        assert(feed.value_spec() == values[step as int]);
        let next = run_schedule(n, (step + 1) as nat, values);
        assert(next.subrange(0, hist.len() as int) =~= hist);
        assert(hist.is_prefix_of(next));
        lemma_schedule_prefix(n, (step + 1) as nat, steps, values);
        lemma_prefix_trans(hist, next, run_schedule(n, steps, values));
    }
}

/// Determinism: a fixed feed state, seed, strategy count and step count
/// determine the schedule and the feed's value sequence completely. Two
/// runs from equal starting points record equal histories and push equal
/// prices, because `run`'s contract gives both as functions of the
/// starting point alone.
pub proof fn lemma_run_deterministic<F: Feed>(
    feed_a: F,
    feed_b: F,
    seed_a: u64,
    seed_b: u64,
    n_strategies: nat,
    steps: nat,
)
    requires
        feed_a == feed_b,
        seed_a == seed_b,
    ensures
        feed_value_trace(feed_a, seed_a, steps) == feed_value_trace(feed_b, seed_b, steps),
        run_schedule(n_strategies, steps, feed_value_trace(feed_a, seed_a, steps)) == run_schedule(
            n_strategies,
            steps,
            feed_value_trace(feed_b, seed_b, steps),
        ),
        feed_after(feed_a, seed_a, steps) == feed_after(feed_b, seed_b, steps),
{
}

/// Represents an arena that can be used to run a simulation and execute
/// strategies.
pub struct Arena<V, I: Inspector<V>, S: Strategy<V, I>, F: Feed, A: Arbitrageur> {
    /// The strategies that are to be run in the simulation.
    pub strategies: Vec<S>,

    /// The feed that provides the current, theoretical value of the pool.
    pub feed: F,

    /// The inspector that is used to evaluate the performance of the
    /// strategies.
    pub inspector: I,

    /// The arbitrageur that is used to peg the pool.
    pub arbitrageur: A,

    /// The engine through which all ledger mutations flow.
    pub engine: Engine,

    /// The noise source driving the feed.
    pub noise: NoiseSource,

    /// The recorded schedule of the current run.
    pub history: Vec<ArenaEvent>,

    /// Every signal handed to a strategy or the arbitrageur during the
    /// current run, in hand-out order.
    pub signals: Vec<Signal>,

    /// Marker tying the inspector's value type.
    pub marker: core::marker::PhantomData<V>,
}

impl<V, I: Inspector<V>, S: Strategy<V, I>, F: Feed, A: Arbitrageur> Arena<V, I, S, F, A> {
    /// Well-formedness of the arena.
    pub open spec fn wf(&self) -> bool {
        &&& self.feed.wf()
        &&& self.engine.wf()
    }

    /// Run all strategies in the simulation with a given configuration.
    ///
    /// Per step the loop performs: one feed advance pushed as the
    /// reference price, one arbitrageur invocation under the
    /// administrative identity, then one invocation of every strategy in
    /// registration order under its own identity. Any ledger or feed error
    /// aborts the run and is returned: the recorded history is then a
    /// prefix of the schedule — nothing later that step and no later step
    /// was invoked — and the feed stands at a step boundary, advanced no
    /// further. On success the recorded history is exactly the schedule
    /// over the feed's noise-driven value trace, the handed-out signals
    /// carry `None` through initialization and then step `n` throughout
    /// step `n`, and feed and noise source have advanced exactly
    /// `config.steps` steps. Every handed-out signal's tick brackets its
    /// root price, whatever the outcome. With no steps
    /// configured, a bindable pool is enough for the run to succeed; with
    /// steps, success also rests on the arbitrageur's and the feed's
    /// behavior, which their own contracts state.
    #[verifier::rlimit(100)]
    pub fn run(&mut self, config: Config) -> (r: Result<(), ArenaError>)
        requires
            old(self).wf(),
            old(self).history@.len() == 0,
            old(self).signals@.len() == 0,
            1 <= config.sqrt_price,
            config.sqrt_price * config.sqrt_price <= u128::MAX,
            1 <= config.initial_price,
        ensures
            final(self).wf(),
            final(self).strategies@.len() == old(self).strategies@.len(),
            r matches Ok(()) ==> {
                &&& final(self).history@ == run_schedule(
                    old(self).strategies@.len(),
                    config.steps as nat,
                    feed_value_trace(
                        old(self).feed,
                        old(self).noise.state_spec(),
                        config.steps as nat,
                    ),
                )
                &&& final(self).feed == feed_after(
                    old(self).feed,
                    old(self).noise.state_spec(),
                    config.steps as nat,
                )
                &&& final(self).noise.state_spec() == state_after(
                    old(self).noise.state_spec(),
                    (12 * config.steps) as nat,
                )
                &&& steps_of(final(self).signals@) == run_step_trace(
                    old(self).strategies@.len(),
                    config.steps as nat,
                )
            },
            forall|i: int|
                0 <= i < final(self).signals@.len() ==> signal_consistent(
                    #[trigger] final(self).signals@[i],
                ),
            config.steps == 0 && crate::ledger::pool_binding_ok(config.sqrt_price as int) ==> r
                is Ok,
            r matches Err(e) ==> aborted_run_ok(
                old(self).feed,
                old(self).noise.state_spec(),
                old(self).strategies@.len(),
                config.steps as nat,
                final(self).history@,
                final(self).feed,
            ),
    {
        let n: usize = self.strategies.len();
        let ghost feed0: F = self.feed;
        let ghost noise0: u64 = self.noise.state_spec();
        let ghost values: Seq<int> = feed_value_trace(feed0, noise0, config.steps as nat);

        let mut ledger: Ledger = Ledger::new(config.initial_price);
        if let Err(e) = ledger.set_pool(
            PoolKey {
                currency0: AccountId(1),
                currency1: AccountId(2),
                fee: config.pool_fee,
                tick_spacing: config.tick_spacing,
                hooks: config.hooks,
            },
            config.pool_fee,
            config.tick_spacing,
            config.sqrt_price,
        ) {
            proof {
                lemma_schedule_prefix(n as nat, 0, config.steps as nat, values);
                assert(self.history@ =~= run_schedule(n as nat, 0, values).subrange(
                    0,
                    self.history@.len() as int,
                ));
                assert(self.history@.is_prefix_of(run_schedule(n as nat, 0, values)));
                lemma_prefix_trans(
                    self.history@,
                    run_schedule(n as nat, 0, values),
                    run_schedule(n as nat, config.steps as nat, values),
                );
                assert(feed_after(feed0, noise0, 0) == self.feed);
                assert(aborted_run_ok(feed0, noise0, n as nat, config.steps as nat,
                    self.history@, self.feed));
            }
            return Err(e);
        }
        self.engine = Engine::new(config.hooks, ledger);

        let mut idx: usize = 0;
        while idx < n
            invariant
                idx <= n,
                n == self.strategies@.len(),
                n == old(self).strategies@.len(),
                self.wf(),
                self.engine.ledger.pool is Some,
                self.history@ == init_schedule(idx as nat),
                self.feed == feed0,
                self.noise.state_spec() == noise0,
                steps_of(self.signals@) == Seq::new(idx as nat, |i: int| None::<usize>),
                forall|i: int|
                    0 <= i < self.signals@.len() ==> signal_consistent(
                        #[trigger] self.signals@[i],
                    ),
            decreases n - idx,
        {
            let identity: AccountId = AccountId((idx as u64) + 1);
            let signal: Signal = self.construct_signal(None);
            let ghost prev_sigs: Seq<Signal> = self.signals@;
            self.signals.push(signal);
            let mut strategy: S = self.strategies.remove(idx);
            strategy.init(identity, &signal, &mut self.inspector, &mut self.engine);
            self.strategies.insert(idx, strategy);
            self.history.push(ArenaEvent::StrategyInit { index: idx });
            proof {
                assert(self.history@ =~= init_schedule((idx + 1) as nat));
                assert(self.strategies@.len() == n);
                lemma_steps_of_push(prev_sigs, signal);
                assert(steps_of(self.signals@) =~= Seq::new(
                    (idx + 1) as nat,
                    |i: int| None::<usize>,
                ));
            }
            idx = idx + 1;
        }

        let init_signal: Signal = self.construct_signal(None);
        let ghost prev_sigs: Seq<Signal> = self.signals@;
        self.signals.push(init_signal);
        self.arbitrageur.init(&init_signal, AccountId(0), &mut self.engine);
        proof {
            lemma_steps_of_push(prev_sigs, init_signal);
            assert(steps_of(self.signals@) =~= init_step_trace(n as nat));
            assert(run_step_trace(n as nat, 0) == init_step_trace(n as nat));
        }

        self.run_loop(config.steps, Ghost(feed0), Ghost(noise0), Ghost(values))
    }

    /// Drive the step loop from a freshly set-up arena.
    fn run_loop(
        &mut self,
        steps: usize,
        Ghost(feed0): Ghost<F>,
        Ghost(noise0): Ghost<u64>,
        Ghost(values): Ghost<Seq<int>>,
    ) -> (r: Result<(), ArenaError>)
        requires
            old(self).wf(),
            old(self).engine.ledger.pool is Some,
            values == feed_value_trace(feed0, noise0, steps as nat),
            old(self).history@ == run_schedule(old(self).strategies@.len(), 0, values),
            old(self).feed == feed0,
            old(self).noise.state_spec() == noise0,
            steps_of(old(self).signals@) == run_step_trace(old(self).strategies@.len(), 0),
            forall|i: int|
                0 <= i < old(self).signals@.len() ==> signal_consistent(
                    #[trigger] old(self).signals@[i],
                ),
        ensures
            final(self).wf(),
            final(self).strategies@.len() == old(self).strategies@.len(),
            r is Ok ==> {
                &&& final(self).history@ == run_schedule(
                    old(self).strategies@.len(),
                    steps as nat,
                    values,
                )
                &&& final(self).feed == feed_after(feed0, noise0, steps as nat)
                &&& final(self).noise.state_spec() == state_after(noise0, (12 * steps) as nat)
                &&& steps_of(final(self).signals@) == run_step_trace(
                    old(self).strategies@.len(),
                    steps as nat,
                )
            },
            r is Err ==> aborted_run_ok(
                feed0,
                noise0,
                old(self).strategies@.len(),
                steps as nat,
                final(self).history@,
                final(self).feed,
            ),
            forall|i: int|
                0 <= i < final(self).signals@.len() ==> signal_consistent(
                    #[trigger] final(self).signals@[i],
                ),
            steps == 0 ==> r is Ok,
    {
        let n: usize = self.strategies.len();
        let mut step: usize = 0;
        while step < steps
            invariant
                step <= steps,
                n == self.strategies@.len(),
                n == old(self).strategies@.len(),
                self.wf(),
                self.engine.ledger.pool is Some,
                self.history@ == run_schedule(n as nat, step as nat, values),
                self.feed == feed_after(feed0, noise0, step as nat),
                self.noise.state_spec() == state_after(noise0, (12 * step) as nat),
                values == feed_value_trace(feed0, noise0, steps as nat),
                steps_of(self.signals@) == run_step_trace(n as nat, step as nat),
                forall|i: int|
                    0 <= i < self.signals@.len() ==> signal_consistent(
                        #[trigger] self.signals@[i],
                    ),
            decreases steps - step,
        {
            if let Err(e) = self.run_step_checked(
                step,
                steps,
                Ghost(feed0),
                Ghost(noise0),
                Ghost(values),
            ) {
                return Err(e);
            }
            step = step + 1;
        }
        Ok(())
    }

    /// Perform one checked step of the run, keeping the history, feed and
    /// noise source in lockstep with the schedule; an abort leaves the
    /// history a prefix of the schedule and the feed at a step boundary.
    fn run_step_checked(
        &mut self,
        step: usize,
        steps: usize,
        Ghost(feed0): Ghost<F>,
        Ghost(noise0): Ghost<u64>,
        Ghost(values): Ghost<Seq<int>>,
    ) -> (r: Result<(), ArenaError>)
        requires
            old(self).wf(),
            old(self).engine.ledger.pool is Some,
            step < steps,
            values == feed_value_trace(feed0, noise0, steps as nat),
            old(self).history@ == run_schedule(old(self).strategies@.len(), step as nat, values),
            old(self).feed == feed_after(feed0, noise0, step as nat),
            old(self).noise.state_spec() == state_after(noise0, (12 * step) as nat),
            steps_of(old(self).signals@) == run_step_trace(old(self).strategies@.len(),
                step as nat),
            forall|i: int|
                0 <= i < old(self).signals@.len() ==> signal_consistent(
                    #[trigger] old(self).signals@[i],
                ),
        ensures
            final(self).wf(),
            final(self).engine.ledger.pool is Some,
            final(self).strategies@.len() == old(self).strategies@.len(),
            r is Ok ==> {
                &&& final(self).history@ == run_schedule(
                    old(self).strategies@.len(),
                    (step + 1) as nat,
                    values,
                )
                &&& final(self).feed == feed_after(feed0, noise0, (step + 1) as nat)
                &&& final(self).noise.state_spec() == state_after(noise0, (12 * (step + 1)) as nat)
                &&& steps_of(final(self).signals@) == run_step_trace(
                    old(self).strategies@.len(),
                    (step + 1) as nat,
                )
            },
            r is Err ==> aborted_run_ok(
                feed0,
                noise0,
                old(self).strategies@.len(),
                steps as nat,
                final(self).history@,
                final(self).feed,
            ),
            forall|i: int|
                0 <= i < final(self).signals@.len() ==> signal_consistent(
                    #[trigger] final(self).signals@[i],
                ),
    {
        let ghost pre_feed: F = self.feed;
        let ghost pre_hist: Seq<ArenaEvent> = self.history@;
        let ghost n0: nat = self.strategies@.len();
        match self.step_once(step) {
            Ok(value) => {
                proof {
                    lemma_state_after_add(noise0, (12 * step) as nat, 12);
                    lemma_trace_index(feed0, noise0, steps as nat, step as nat);
                    assert(self.feed == feed_after(feed0, noise0, (step + 1) as nat));
                    assert(value as int == values[step as int]);
                    assert(self.history@ == run_schedule(n0, (step + 1) as nat, values));
                    assert(steps_of(self.signals@) =~= run_step_trace(n0, (step + 1) as nat));
                }
                Ok(())
            },
            Err(e) => {
                proof {
                    let pa = ArenaEvent::PriceAdvanced {
                        step,
                        value: self.feed.value_spec() as i128,
                    };
                    if self.history@ == pre_hist.push(pa) {
                        assert(pre_hist.push(pa).len() == pre_hist.len() + 1);
                        assert(self.history@ != pre_hist);
                        assert(self.feed == pre_feed.stepped(
                            gaussian_of(state_after(noise0, (12 * step) as nat)),
                        ));
                    }
                    lemma_abort_state(
                        feed0,
                        noise0,
                        n0,
                        step,
                        steps as nat,
                        values,
                        pre_hist,
                        self.history@,
                        pre_feed,
                        self.feed,
                    );
                }
                Err(e)
            },
        }
    }

    /// Perform one step of the run: advance the feed, push its value,
    /// invoke the arbitrageur, then every strategy in registration order.
    #[verifier::rlimit(100)]
    fn step_once(&mut self, step: usize) -> (r: Result<i128, ArenaError>)
        requires
            old(self).wf(),
            old(self).engine.ledger.pool is Some,
            forall|i: int|
                0 <= i < old(self).signals@.len() ==> signal_consistent(
                    #[trigger] old(self).signals@[i],
                ),
        ensures
            final(self).wf(),
            final(self).engine.ledger.pool is Some,
            final(self).strategies@.len() == old(self).strategies@.len(),
            r matches Ok(value) ==> {
                &&& !old(self).feed.step_fails(gaussian_of(old(self).noise.state_spec()))
                &&& final(self).feed == old(self).feed.stepped(
                    gaussian_of(old(self).noise.state_spec()),
                )
                &&& value as int == final(self).feed.value_spec()
                &&& value >= 1
                &&& final(self).noise.state_spec() == state_after(old(self).noise.state_spec(), 12)
                &&& final(self).history@ == old(self).history@ + step_schedule(
                    step as nat,
                    old(self).strategies@.len(),
                    value as int,
                )
                &&& steps_of(final(self).signals@) == steps_of(old(self).signals@)
                    + one_step_trace(step, old(self).strategies@.len())
            },
            forall|i: int|
                0 <= i < final(self).signals@.len() ==> signal_consistent(
                    #[trigger] final(self).signals@[i],
                ),
            r matches Err(e) ==> {
                &&& final(self).noise.state_spec() == state_after(
                    old(self).noise.state_spec(),
                    12,
                )
                &&& (final(self).history@ == old(self).history@ && final(self).feed == old(
                    self,
                ).feed) || (!old(self).feed.step_fails(gaussian_of(old(self).noise.state_spec()))
                    && final(self).feed == old(self).feed.stepped(
                    gaussian_of(old(self).noise.state_spec()),
                ) && (final(self).history@ == old(self).history@ || final(self).history@ == old(
                    self,
                ).history@.push(
                    ArenaEvent::PriceAdvanced {
                        step,
                        value: final(self).feed.value_spec() as i128,
                    },
                )))
            },
    {
        let n: usize = self.strategies.len();
        let ghost history0: Seq<ArenaEvent> = self.history@;
        let noise: i128 = self.noise.next_gaussian();
        let value: i128 = match self.feed.step(noise) {
            Ok(v) => v,
            Err(e) => {
                return Err(e);
            },
        };
        if value < 1 {
            return Err(ArenaError::InvalidNumericInput);
        }
        if let Err(e) = self.engine.ledger.submit_price_update(value as u128) {
            return Err(e);
        }
        self.history.push(ArenaEvent::PriceAdvanced { step, value });
        let ghost sig0: Seq<Signal> = self.signals@;
        let signal: Signal = self.construct_signal(Some(step));
        self.signals.push(signal);
        proof {
            lemma_steps_of_push(sig0, signal);
        }
        if let Err(e) = self.arbitrageur.arbitrage(&signal, AccountId(0), &mut self.engine) {
            proof {
                assert forall|i: int| 0 <= i < self.signals@.len() implies signal_consistent(
                    self.signals@[i],
                ) by {
                    if i < sig0.len() {
                        assert(sig0 == old(self).signals@);
                        assert(signal_consistent(old(self).signals@[i]));
                        assert(self.signals@[i] == sig0[i]);
                    } else {
                        assert(self.signals@[i] == signal);
                    }
                }
            }
            return Err(e);
        }
        self.history.push(ArenaEvent::ArbitrageDone { step });

        let mut idx: usize = 0;
        while idx < n
            invariant
                idx <= n,
                n == self.strategies@.len(),
                self.wf(),
                self.engine.ledger.pool is Some,
                self.history@ == history0 + seq![
                    ArenaEvent::PriceAdvanced { step, value },
                    ArenaEvent::ArbitrageDone { step },
                ] + Seq::new(
                    idx as nat,
                    |i: int| ArenaEvent::StrategyProcessed { index: i as usize, step },
                ),
                self.feed == old(self).feed.stepped(gaussian_of(old(self).noise.state_spec())),
                self.noise.state_spec() == state_after(old(self).noise.state_spec(), 12),
                value as int == self.feed.value_spec(),
                value >= 1,
                !old(self).feed.step_fails(gaussian_of(old(self).noise.state_spec())),
                sig0 == old(self).signals@,
                steps_of(self.signals@) == steps_of(sig0) + Seq::new(
                    (idx + 1) as nat,
                    |i: int| Some(step),
                ),
                forall|i: int|
                    sig0.len() <= i < self.signals@.len() ==> signal_consistent(
                        #[trigger] self.signals@[i],
                    ),
                forall|i: int| 0 <= i < sig0.len() ==> self.signals@[i] == sig0[i],
            decreases n - idx,
        {
            let identity: AccountId = AccountId((idx as u64) + 1);
            let step_signal: Signal = self.construct_signal(Some(step));
            let ghost prev_sigs: Seq<Signal> = self.signals@;
            self.signals.push(step_signal);
            proof {
                lemma_steps_of_push(prev_sigs, step_signal);
            }
            let mut strategy: S = self.strategies.remove(idx);
            strategy.process(identity, &step_signal, &mut self.inspector, &mut self.engine);
            self.strategies.insert(idx, strategy);
            self.history.push(ArenaEvent::StrategyProcessed { index: idx, step });
            proof {
                assert(self.history@ =~= history0 + seq![
                    ArenaEvent::PriceAdvanced { step, value },
                    ArenaEvent::ArbitrageDone { step },
                ] + Seq::new(
                    (idx + 1) as nat,
                    |i: int| ArenaEvent::StrategyProcessed { index: i as usize, step },
                ));
                assert(self.strategies@.len() == n);
                assert(steps_of(self.signals@) =~= steps_of(sig0) + Seq::new(
                    (idx + 2) as nat,
                    |i: int| Some(step),
                ));
            }
            idx = idx + 1;
        }
        proof {
            assert(self.history@ =~= history0 + step_schedule(step as nat, n as nat,
                value as int));
            assert(steps_of(self.signals@) =~= steps_of(sig0) + one_step_trace(step, n as nat));
            assert forall|i: int| 0 <= i < self.signals@.len() implies signal_consistent(
                self.signals@[i],
            ) by {
                if i < sig0.len() {
                    assert(sig0 == old(self).signals@);
                    assert(signal_consistent(old(self).signals@[i]));
                    assert(self.signals@[i] == sig0[i]);
                }
            }
        }
        Ok(value)
    }

    /// Build the per-step snapshot from the current ledger and feed state.
    fn construct_signal(&self, step: Option<usize>) -> (s: Signal)
        requires
            self.wf(),
        ensures
            s.step == step,
            s.current_value as int == self.feed.value_spec(),
            s.lex_price == self.engine.ledger.price,
            self.engine.ledger.pool matches Some(p) ==> s.tick == p.tick && s.sqrt_price
                == p.sqrt_price,
            self.engine.ledger.pool is Some ==> signal_consistent(s),
    {
        let (tick, sqrt_price): (i32, u128) = match &self.engine.ledger.pool {
            Some(p) => (p.tick, p.sqrt_price),
            None => (0, SCALE),
        };
        let key: PoolKey = match &self.engine.ledger.pool {
            Some(p) => p.key,
            None => PoolKey {
                currency0: AccountId(0),
                currency1: AccountId(0),
                fee: 0,
                tick_spacing: 0,
                hooks: AccountId(0),
            },
        };
        Signal::new(
            self.engine.ledger.price,
            step,
            tick,
            sqrt_price,
            self.engine.controller,
            key,
            self.engine.controller,
            self.feed.current_value(),
            self.engine.controller,
        )
    }
}

/// A builder for an [`Arena`] that can be used to configure the
/// simulation.
pub struct ArenaBuilder<V, I: Inspector<V>, S: Strategy<V, I>, F: Feed, A: Arbitrageur> {
    /// The strategies to register, in order.
    pub strategies: Vec<S>,

    /// The feed, once set.
    pub feed: Option<F>,

    /// The inspector, once set.
    pub inspector: Option<I>,

    /// The arbitrageur, once set.
    pub arbitrageur: Option<A>,

    /// The seed of the run's noise source, once set.
    pub seed: Option<u64>,

    /// Marker tying the inspector's value type.
    pub marker: core::marker::PhantomData<V>,
}

impl<V, I: Inspector<V>, S: Strategy<V, I>, F: Feed, A: Arbitrageur> ArenaBuilder<
    V,
    I,
    S,
    F,
    A,
> {
    /// Public constructor function for a new [`ArenaBuilder`].
    pub fn new() -> (b: ArenaBuilder<V, I, S, F, A>)
        ensures
            b.strategies@.len() == 0,
            b.feed is None,
            b.inspector is None,
            b.arbitrageur is None,
            b.seed is None,
    {
        ArenaBuilder {
            strategies: Vec::new(),
            feed: None,
            inspector: None,
            arbitrageur: None,
            seed: None,
            marker: core::marker::PhantomData,
        }
    }

    /// Add a strategy to the simulation, at the end of the registration
    /// order that the scheduler will follow.
    pub fn with_strategy(self, strategy: S) -> (b: ArenaBuilder<V, I, S, F, A>)
        ensures
            b.strategies@ == self.strategies@.push(strategy),
            b.feed == self.feed,
            b.inspector == self.inspector,
            b.arbitrageur == self.arbitrageur,
            b.seed == self.seed,
    {
        let mut b = self;
        b.strategies.push(strategy);
        b
    }

    /// Set the feed that provides the current, theoretical value of the
    /// pool.
    pub fn with_feed(self, feed: F) -> (b: ArenaBuilder<V, I, S, F, A>)
        ensures
            b.feed == Some(feed),
            b.strategies@.len() == self.strategies@.len(),
            b.inspector == self.inspector,
            b.arbitrageur == self.arbitrageur,
            b.seed == self.seed,
    {
        let mut b = self;
        b.feed = Some(feed);
        b
    }

    /// Set the inspector that is used to evaluate the performance of the
    /// strategies.
    pub fn with_inspector(self, inspector: I) -> (b: ArenaBuilder<V, I, S, F, A>)
        ensures
            b.inspector is Some,
            b.strategies@.len() == self.strategies@.len(),
            b.feed == self.feed,
            b.arbitrageur == self.arbitrageur,
            b.seed == self.seed,
    {
        let mut b = self;
        b.inspector = Some(inspector);
        b
    }

    /// Set the arbitrageur that is used to peg the pool.
    pub fn with_arbitrageur(self, arbitrageur: A) -> (b: ArenaBuilder<V, I, S, F, A>)
        ensures
            b.arbitrageur is Some,
            b.strategies@.len() == self.strategies@.len(),
            b.feed == self.feed,
            b.inspector == self.inspector,
            b.seed == self.seed,
    {
        let mut b = self;
        b.arbitrageur = Some(arbitrageur);
        b
    }

    /// Set the seed of the run's noise source, for a reproducible run.
    pub fn with_seed(self, seed: u64) -> (b: ArenaBuilder<V, I, S, F, A>)
        ensures
            b.seed == Some(seed),
            b.strategies@.len() == self.strategies@.len(),
            b.feed == self.feed,
            b.inspector == self.inspector,
            b.arbitrageur == self.arbitrageur,
    {
        let mut b = self;
        b.seed = Some(seed);
        b
    }

    /// Build the [`Arena`] with the given configuration.
    ///
    /// Fails fast with [`ArenaError::ConfigurationError`] exactly when the
    /// feed, the inspector or the arbitrageur was not set, or the feed is
    /// malformed. A builder without a seed draws one from ambient entropy;
    /// the run is then not reproducible.
    pub fn build(self) -> (r: Result<Arena<V, I, S, F, A>, ArenaError>)
        ensures
            r matches Ok(arena) ==> {
                &&& self.feed matches Some(f) && arena.feed == f && f.wf()
                &&& self.inspector matches Some(i) && arena.inspector == i
                &&& self.arbitrageur matches Some(a) && arena.arbitrageur == a
                &&& arena.wf()
                &&& arena.history@.len() == 0
                &&& arena.signals@.len() == 0
                &&& arena.strategies@ == self.strategies@
                &&& (self.seed matches Some(seed) ==> arena.noise.state_spec() == seed)
            },
            r matches Err(e) ==> e == ArenaError::ConfigurationError && (self.feed is None
                || self.inspector is None || self.arbitrageur is None || !(
            self.feed matches Some(f) && f.wf())),
    {
        let feed: F = match self.feed {
            Some(f) => f,
            None => {
                return Err(ArenaError::ConfigurationError);
            },
        };
        if !feed_wf_check(&feed) {
            return Err(ArenaError::ConfigurationError);
        }
        let inspector: I = match self.inspector {
            Some(i) => i,
            None => {
                return Err(ArenaError::ConfigurationError);
            },
        };
        let arbitrageur: A = match self.arbitrageur {
            Some(a) => a,
            None => {
                return Err(ArenaError::ConfigurationError);
            },
        };
        let noise: NoiseSource = match self.seed {
            Some(seed) => NoiseSource::new(seed),
            None => NoiseSource::from_entropy(),
        };
        Ok(
            Arena {
                strategies: self.strategies,
                feed,
                inspector,
                arbitrageur,
                engine: Engine::new(AccountId(0), Ledger::new(1)),
                noise,
                history: Vec::new(),
                signals: Vec::new(),
                marker: core::marker::PhantomData,
            },
        )
    }
}

impl<V, I: Inspector<V>, S: Strategy<V, I>, F: Feed, A: Arbitrageur> Default for ArenaBuilder<
    V,
    I,
    S,
    F,
    A,
> {
    /// An empty builder, as [`ArenaBuilder::new`] gives.
    fn default() -> (b: ArenaBuilder<V, I, S, F, A>)
        ensures
            b.strategies@.len() == 0,
            b.feed is None,
            b.inspector is None,
            b.arbitrageur is None,
            b.seed is None,
    {
        ArenaBuilder::new()
    }
}

/// Whether the feed reports itself well-formed.
fn feed_wf_check<F: Feed>(feed: &F) -> (r: bool)
    ensures
        r == feed.wf(),
{
    feed.well_formed()
}

} // verus!
