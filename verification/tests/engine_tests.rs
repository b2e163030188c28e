use plaid::cache::{GetResponse, ResponseCache, facebook_response, plan_get};
use plaid::config::{CachingMode, GetMode, LoaderConfiguration, ModuleConfig, ResponseMode};
use plaid::dispatch::{LogQueue, Registry, RegistryError};
use plaid::functions::FunctionErrors;
use plaid::hostcalls::HostEnv;
use plaid::messages::{LogSource, LogbacksAllowed, Message};
use plaid::sandbox::{MeteredInstance, Trap};
use plaid::benchmark::{ModulePerformanceMetadata, PerformanceAggregates};

fn module(name: &str, channels: &[&str], fuel: u64) -> ModuleConfig {
    ModuleConfig {
        name: name.to_string(),
        channels: channels.iter().map(|c| c.to_string()).collect(),
        fuel_limit: fuel,
        memory_limit_pages: 16,
        test_mode_allowed: false,
        persistent_response: false,
        logbacks_allowed_override: None,
    }
}

fn message(channel: &str, budget: LogbacksAllowed) -> Message {
    Message {
        type_: channel.to_string(),
        data: Vec::new(),
        accessory_data: Vec::new(),
        source: LogSource::Webhook("hook".to_string()),
        logbacks_allowed: budget,
    }
}

fn env_with_budget(budget: LogbacksAllowed) -> HostEnv {
    HostEnv::new(
        "mod-a".to_string(),
        LogSource::Webhook("hook".to_string()),
        Vec::new(),
        budget,
        false,
        true,
    )
}

#[test]
fn static_get() {
    let mode = GetMode {
        caching_mode: CachingMode::NoCache,
        response_mode: ResponseMode::Static("ok".to_string()),
    };
    let mut cache = ResponseCache::new();
    let key = "health".to_string();
    match plan_get(&mode, None, None, &mut cache, &key, 0) {
        GetResponse::Respond { status, body } => {
            assert_eq!(status, 200);
            assert_eq!(body, b"ok".to_vec());
        }
        _ => panic!("a static webhook answers without invoking any module"),
    }
}

#[test]
fn facebook_challenge() {
    let secret = "SEKRET".to_string();
    let (status, body) =
        facebook_response(&secret, Some(&"SEKRET".to_string()), Some(&b"abc".to_vec()));
    assert_eq!(status, 200);
    assert_eq!(body, b"abc".to_vec());

    let (status, body) =
        facebook_response(&secret, Some(&"WRONG".to_string()), Some(&b"abc".to_vec()));
    assert_eq!(status, 403);
    assert!(body.is_empty());

    let (status, _) = facebook_response(&secret, None, Some(&b"abc".to_vec()));
    assert_eq!(status, 403);
}

#[test]
fn rule_with_timed_cache() {
    let mode = GetMode {
        caching_mode: CachingMode::Timed { validity: 60 },
        response_mode: ResponseMode::Rule("mod-a".to_string()),
    };
    let mut cache = ResponseCache::new();
    let key = "report".to_string();

    // First GET invokes the module, which produces v1.
    match plan_get(&mode, None, None, &mut cache, &key, 1_000) {
        GetResponse::InvokeRule { module } => assert_eq!(module, "mod-a"),
        _ => panic!("a cold timed cache invokes the module"),
    }
    cache.complete_build(key.clone(), b"v1".to_vec(), 1_000);

    // Thirty seconds later the cached bytes come back without invoking.
    match plan_get(&mode, None, None, &mut cache, &key, 1_030) {
        GetResponse::Respond { status, body } => {
            assert_eq!(status, 200);
            assert_eq!(body, b"v1".to_vec());
        }
        _ => panic!("a fresh timed entry answers without invoking"),
    }

    // Sixty-one seconds after the build the entry has expired.
    match plan_get(&mode, None, None, &mut cache, &key, 1_061) {
        GetResponse::InvokeRule { module } => assert_eq!(module, "mod-a"),
        _ => panic!("an expired timed entry invokes the module again"),
    }
    cache.complete_build(key.clone(), b"v2".to_vec(), 1_061);
    match plan_get(&mode, None, None, &mut cache, &key, 1_062) {
        GetResponse::Respond { body, .. } => assert_eq!(body, b"v2".to_vec()),
        _ => panic!("the rebuilt entry answers"),
    }
}

#[test]
fn single_flight_admits_one_builder() {
    let mut cache = ResponseCache::new();
    let key = "k".to_string();
    assert!(cache.try_begin_build(&key));
    assert!(!cache.try_begin_build(&key));
    // A different key is its own flight.
    assert!(cache.try_begin_build(&"other".to_string()));
    // Completion releases the guard and publishes one set of bytes.
    cache.complete_build(key.clone(), b"bytes".to_vec(), 7);
    assert_eq!(cache.lookup(&key), Some(&b"bytes".to_vec()));
    assert!(cache.try_begin_build(&key));
}

#[test]
fn persistent_response_modes() {
    let serve = GetMode {
        caching_mode: CachingMode::UsePersistentResponse { call_on_none: false },
        response_mode: ResponseMode::Rule("mod-a".to_string()),
    };
    let fill = GetMode {
        caching_mode: CachingMode::UsePersistentResponse { call_on_none: true },
        response_mode: ResponseMode::Rule("mod-a".to_string()),
    };
    let mut cache = ResponseCache::new();
    let key = "p".to_string();

    assert!(matches!(plan_get(&serve, None, None, &mut cache, &key, 0), GetResponse::NotReady));
    assert!(matches!(
        plan_get(&fill, None, None, &mut cache, &key, 0),
        GetResponse::InvokeRule { .. }
    ));
    cache.complete_build(key.clone(), b"stored".to_vec(), 0);
    // Any age serves.
    match plan_get(&serve, None, None, &mut cache, &key, 1_000_000) {
        GetResponse::Respond { status, body } => {
            assert_eq!(status, 200);
            assert_eq!(body, b"stored".to_vec());
        }
        _ => panic!("persistent mode serves the stored bytes"),
    }
}

#[test]
fn logback_budget() {
    // A webhook admitting with Limited(2): the chain may go two levels deep.
    let env_a = env_with_budget(LogbacksAllowed::Limited(2));
    let child1 = env_a.log_back(&"c2".to_string(), &b"one".to_vec()).unwrap();
    assert_eq!(child1.logbacks_allowed, LogbacksAllowed::Limited(1));
    assert_eq!(child1.type_, "c2");

    let env_b = env_with_budget(child1.logbacks_allowed);
    let child2 = env_b.log_back(&"c3".to_string(), &b"two".to_vec()).unwrap();
    assert_eq!(child2.logbacks_allowed, LogbacksAllowed::Limited(0));

    let env_c = env_with_budget(child2.logbacks_allowed);
    let refused = env_c.log_back(&"c4".to_string(), &b"three".to_vec());
    match refused {
        Err(e) => assert_eq!(e.code(), -12),
        Ok(_) => panic!("a spent budget refuses the emit"),
    }
}

#[test]
fn unlimited_budget_propagates() {
    let env = env_with_budget(LogbacksAllowed::Unlimited);
    let child = env.log_back(&"c".to_string(), &Vec::new()).unwrap();
    assert_eq!(child.logbacks_allowed, LogbacksAllowed::Unlimited);
    assert!(matches!(child.source, LogSource::Internal(ref s) if s == "mod-a"));
}

#[test]
fn fuel_exhaustion() {
    let loop_module = module("loop", &["c"], 10_000);
    let mut instance = MeteredInstance::new(&loop_module, 1);
    // A tight loop: 2_600 fuel a lap traps on the fourth lap.
    let costs = vec![2_600u64, 2_600, 2_600, 2_600];
    let r = instance.run_steps(&costs);
    assert_eq!(r, Err(Trap::ComputationExhausted));
    assert!(instance.fuel_used() <= 10_000);

    // The benchmark sink records the single run with fuel within the limit.
    let mut aggregates = PerformanceAggregates::new();
    aggregates.record(&ModulePerformanceMetadata {
        module: "loop".to_string(),
        execution_time: 1_250,
        computation_used: instance.fuel_used(),
    });
    let entry = &aggregates.entries[0];
    assert_eq!(entry.0, "loop");
    assert_eq!(entry.1.runs, 1);
    assert!(entry.1.total_computation_used <= 10_000);

    // The triggering event left the queue before the invocation and is
    // not redelivered after the trap.
    let mut queue = LogQueue::new(8);
    assert!(queue.try_submit(message("c", LogbacksAllowed::Limited(0))).is_ok());
    assert!(queue.pop_next().is_some());
    assert!(queue.pop_next().is_none());
}

#[test]
fn fuel_is_metered_step_by_step() {
    let m = module("m", &[], 100);
    let mut instance = MeteredInstance::new(&m, 1);
    assert!(instance.consume_fuel(60).is_ok());
    assert!(instance.consume_fuel(40).is_ok());
    assert_eq!(instance.fuel_used(), 100);
    assert_eq!(instance.consume_fuel(1), Err(Trap::ComputationExhausted));
    assert_eq!(instance.fuel_used(), 100);
}

#[test]
fn memory_limit_refuses_growth_past_limit() {
    let m = module("m", &[], 100);
    let mut instance = MeteredInstance::new(&m, 4);
    assert_eq!(instance.try_grow_pages(12), Ok(16));
    let refused = instance.try_grow_pages(1);
    match refused {
        Err(e) => assert_eq!(e.code(), -8),
        Ok(_) => panic!("growth past the page limit is refused"),
    }
    // The refused allocation grew nothing.
    assert_eq!(instance.pages, 16);
}

#[test]
fn dispatch_fans_out_to_subscribers_once() {
    let loading = LoaderConfiguration {
        modules: vec![
            module("a", &["c1"], 10),
            module("b", &["c1", "c2"], 10),
            module("c", &["c2"], 10),
        ],
    };
    let registry = Registry::try_new(loading).unwrap();
    assert_eq!(registry.subscribers(&"c1".to_string()), vec!["a".to_string(), "b".to_string()]);
    assert_eq!(registry.subscribers(&"c2".to_string()), vec!["b".to_string(), "c".to_string()]);
    assert!(registry.subscribers(&"c3".to_string()).is_empty());
}

#[test]
fn duplicate_module_names_abort_loading() {
    let loading = LoaderConfiguration {
        modules: vec![module("a", &["c1"], 10), module("a", &["c2"], 10)],
    };
    match Registry::try_new(loading) {
        Err(RegistryError::DuplicateModuleName(n)) => assert_eq!(n, "a"),
        Ok(_) => panic!("duplicate module names abort startup"),
    }
}

#[test]
fn queue_is_fifo_and_bounded() {
    let mut queue = LogQueue::new(2);
    assert!(queue.try_submit(message("c1", LogbacksAllowed::Limited(0))).is_ok());
    assert!(queue.try_submit(message("c2", LogbacksAllowed::Limited(0))).is_ok());
    // Full: the message comes back to the submitter.
    let back = queue.try_submit(message("c3", LogbacksAllowed::Limited(0)));
    assert!(matches!(back, Err(ref m) if m.type_ == "c3"));
    assert_eq!(queue.pop_next().unwrap().type_, "c1");
    assert_eq!(queue.pop_next().unwrap().type_, "c2");
    assert!(queue.pop_next().is_none());
}

#[test]
fn module_override_replaces_the_webhook_budget() {
    let mut m = module("m", &[], 10);
    assert_eq!(m.effective_logbacks(LogbacksAllowed::Limited(2)), LogbacksAllowed::Limited(2));
    m.logbacks_allowed_override = Some(LogbacksAllowed::Unlimited);
    assert_eq!(m.effective_logbacks(LogbacksAllowed::Limited(2)), LogbacksAllowed::Unlimited);
}

#[test]
fn wall_clock_deadline_traps() {
    assert!(plaid::sandbox::check_deadline(999, 1_000).is_ok());
    assert!(plaid::sandbox::check_deadline(1_000, 1_000).is_ok());
    assert_eq!(plaid::sandbox::check_deadline(1_001, 1_000), Err(Trap::WallClockElapsed));
}

#[test]
fn executor_reports_consumed_fuel() {
    let m = module("m", &[], 500);
    let mut instance = MeteredInstance::new(&m, 1);
    assert!(instance.consume_fuel(123).is_ok());
    let record = instance.performance_record("m".to_string(), 77);
    assert_eq!(record.module, "m");
    assert_eq!(record.execution_time, 77);
    assert_eq!(record.computation_used, 123);
}

#[test]
fn error_codes_match_the_stable_table() {
    let table: [(FunctionErrors, i32); 13] = [
        (FunctionErrors::ApiNotConfigured, -1),
        (FunctionErrors::ReturnBufferTooSmall, -2),
        (FunctionErrors::ErrorCouldNotSerialize, -3),
        (FunctionErrors::InternalApiError, -4),
        (FunctionErrors::ParametersNotUtf8, -5),
        (FunctionErrors::InvalidPointer, -6),
        (FunctionErrors::CacheDisabled, -7),
        (FunctionErrors::CouldNotGetAdequateMemory, -8),
        (FunctionErrors::FailedToWriteGuestMemory, -9),
        (FunctionErrors::StorageLimitReached, -10),
        (FunctionErrors::TestMode, -11),
        (FunctionErrors::OperationNotAllowed, -12),
        (FunctionErrors::SharedDbError, -13),
    ];
    for (e, code) in table {
        assert_eq!(e.code(), code);
    }
}
