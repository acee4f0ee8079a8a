use arena_core::engine::inspector::{
    EmptyInspector, Inspector, LogMessage, Logger, SaveData,
};
use arena_core::deployer::{Deployer, DeployerAction, DeploymentRequest};
use arena_core::liquidity_admin::{AllocationRequest, LiquidityAdmin};
use arena_core::orchestrator::{IterationType, Orchestrator, OrchestratorRequest};
use arena_core::pool_admin::{PoolAdmin, PoolParams};
use arena_core::deployer::DeploymentResponse;
use arena_core::ledger::Ledger;
use arena_core::price_changer::PriceChanger;
use arena_core::feed::OrnsteinUhlenbeck;
use arena_core::{AccountId, PoolKey};

const SCALE: i128 = 1_000_000_000;

#[test]
fn logger_tags_messages_in_order() {
    let mut logger = Logger::new();
    logger.log(LogMessage::new("alpha".to_string(), "beta".to_string()));
    logger.log(LogMessage::new("gamma".to_string(), "delta".to_string()));
    assert_eq!(logger.counter, 2);
    assert!(logger.inspect(0).is_some());
    assert!(logger.inspect(1).is_some());
    assert!(logger.inspect(2).is_none());
}

#[test]
fn logger_renders_csv_with_quoting() {
    let mut logger = Logger::new();
    logger.log(LogMessage::new("alpha".to_string(), "beta".to_string()));
    logger.log(LogMessage::new("with,comma".to_string(), "plain".to_string()));
    let plan = logger
        .save(Some(SaveData::ToNewCsv("out.csv".to_string())))
        .unwrap();
    assert_eq!(plan.path, "out.csv");
    assert!(!plan.append);
    assert_eq!(
        plan.content,
        "id,name,data\n0,alpha,beta\n1,\"with,comma\",plain\n"
    );
}

#[test]
fn logger_renders_a_json_array() {
    let mut logger = Logger::new();
    logger.log(LogMessage::new("alpha".to_string(), "beta".to_string()));
    logger.log(LogMessage::new("gamma".to_string(), "delta".to_string()));
    let plan = logger
        .save(Some(SaveData::ToNewJson("out.json".to_string())))
        .unwrap();
    assert!(!plan.append);
    let parsed: Vec<serde_json::Value> = serde_json::from_str(&plan.content).unwrap();
    assert_eq!(parsed.len(), 2);
    assert_eq!(parsed[0]["id"], 0);
    assert_eq!(parsed[0]["name"], "alpha");
    assert_eq!(parsed[0]["data"], "beta");
    assert_eq!(parsed[1]["id"], 1);
    assert_eq!(parsed[1]["name"], "gamma");
    assert_eq!(parsed[1]["data"], "delta");
}

#[test]
fn logger_save_without_a_target_is_none() {
    let logger = Logger::new();
    assert!(logger.save(None).is_none());
}

#[test]
fn empty_inspector_stores_nothing() {
    let mut inspector = EmptyInspector;
    inspector.log(5);
    assert!(inspector.inspect(0).is_none());
    assert!(inspector.save(Some(SaveData::ToCsv("x".to_string()))).is_none());
}

#[test]
fn orchestrator_counts_definite_iterations() {
    let mut orchestrator = Orchestrator::new(1_000_000_000, IterationType::Definite(2));
    assert!(orchestrator.startup());
    assert!(orchestrator.startup());
    assert!(orchestrator.startup());
    assert!(!orchestrator.startup());
    orchestrator.process(OrchestratorRequest::Restart);
    assert!(orchestrator.startup());
    orchestrator.process(OrchestratorRequest::Terminate);
    assert!(!orchestrator.startup());
    orchestrator.process(OrchestratorRequest::ChangeTo(IterationType::Indefinite));
    orchestrator.process(OrchestratorRequest::Restart);
    assert!(orchestrator.startup());
}

#[test]
fn deployer_waits_for_the_manager() {
    let key = PoolKey {
        currency0: AccountId(1),
        currency1: AccountId(2),
        fee: 500,
        tick_spacing: 10,
        hooks: AccountId(0),
    };
    let mut deployer = Deployer::new();
    let pool_request = DeploymentRequest::Pool(arena_core::deployer::PoolParams {
        key,
        sqrt_price: SCALE as u128,
        hook_data: Vec::new(),
    });
    assert!(deployer.process(pool_request.clone()).is_none());
    deployer.startup(AccountId(9));
    match deployer.process(pool_request) {
        Some(DeployerAction::InitializePool { manager, .. }) => {
            assert_eq!(manager, AccountId(9));
        }
        other => panic!("unexpected action {:?}", other),
    }
    match deployer.process(DeploymentRequest::Token {
        name: "Test".to_string(),
        symbol: "TST".to_string(),
        decimals: 18,
    }) {
        Some(DeployerAction::DeployToken { decimals, .. }) => assert_eq!(decimals, 18),
        other => panic!("unexpected action {:?}", other),
    }
}

#[test]
fn pool_admin_initializes_on_request() {
    let key = PoolKey {
        currency0: AccountId(1),
        currency1: AccountId(2),
        fee: 500,
        tick_spacing: 10,
        hooks: AccountId(0),
    };
    let mut admin = PoolAdmin::new();
    let mut ledger = Ledger::new(SCALE as u128);
    let request = DeploymentRequest::Pool(arena_core::deployer::PoolParams {
        key,
        sqrt_price: SCALE as u128,
        hook_data: Vec::new(),
    });
    assert!(admin.process(&request, &mut ledger).is_err());
    assert!(admin.startup(&DeploymentResponse::PoolManager(AccountId(3))));
    let _ = PoolParams::new(key, SCALE as u128, Vec::new());
    assert!(admin.process(&request, &mut ledger).unwrap());
    assert!(ledger.pool.is_some());
}

#[test]
fn liquidity_admin_applies_after_startup() {
    let key = PoolKey {
        currency0: AccountId(1),
        currency1: AccountId(2),
        fee: 500,
        tick_spacing: 10,
        hooks: AccountId(0),
    };
    let mut admin = LiquidityAdmin::new();
    let mut ledger = Ledger::new(SCALE as u128);
    let request = AllocationRequest {
        pool: key,
        tick_lower: -100,
        tick_upper: 100,
        liquidity_delta: 5_000,
        hook_data: Vec::new(),
    };
    assert!(admin.process(&request, AccountId(5), &mut ledger).is_err());
    admin.startup(&DeploymentResponse::PoolManager(AccountId(3)));
    let done = admin.startup(&DeploymentResponse::Pool(arena_core::deployer::PoolParams {
        key,
        sqrt_price: SCALE as u128,
        hook_data: Vec::new(),
    }));
    assert!(done);
    admin.process(&request, AccountId(5), &mut ledger).unwrap();
    assert_eq!(ledger.get_tick_liquidity(0), 5_000);
}

#[test]
fn price_changer_pushes_the_stepped_value() {
    let feed = OrnsteinUhlenbeck::new(2 * SCALE, SCALE / 2, SCALE, 0, SCALE).unwrap();
    let mut changer = PriceChanger::new(feed);
    changer.startup(AccountId(4));
    let mut ledger = Ledger::new(SCALE as u128);
    changer.process(0, &mut ledger).unwrap();
    assert_eq!(ledger.price, (3 * SCALE / 2) as u128);
}
