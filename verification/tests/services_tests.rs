use plaid::benchmark::{
    default_results_file_path, u128_to_string, u64_to_string, AggregatePerformanceData,
    Benchmarking, ModulePerformanceMetadata, PerformanceAggregates,
};
use plaid::data::{DelayedMessage, DelayedMessageWheel};
use plaid::functions::{
    fake_wbindgen_externref_table_grow, plan_imports, FunctionErrors, LinkError,
};
use plaid::hostcalls::{check_api_call, check_cache_enabled, marshal_return, HostEnv};
use plaid::messages::{LogSource, LogbacksAllowed, Message};
use plaid::apis::Apis;
use plaid::storage::ModuleStorage;
use plaid::yubikey::{validate_yubi_client_id, YubikeyConfig, YubikeyError};

fn sample(module: &str, time: u128, fuel: u64) -> ModulePerformanceMetadata {
    ModulePerformanceMetadata {
        module: module.to_string(),
        execution_time: time,
        computation_used: fuel,
    }
}

fn message(channel: &str) -> Message {
    Message {
        type_: channel.to_string(),
        data: Vec::new(),
        accessory_data: Vec::new(),
        source: LogSource::Internal("internal".to_string()),
        logbacks_allowed: LogbacksAllowed::Limited(0),
    }
}

#[test]
fn decimal_rendering() {
    assert_eq!(u64_to_string(0), "0");
    assert_eq!(u64_to_string(7), "7");
    assert_eq!(u64_to_string(10_230), "10230");
    assert_eq!(u64_to_string(u64::MAX), "18446744073709551615");
    assert_eq!(u128_to_string(340_282_366_920_938_463_463_374_607_431_768_211_455), "340282366920938463463374607431768211455");
}

#[test]
fn benchmark_aggregation_and_report() {
    let mut aggregates = PerformanceAggregates::new();
    aggregates.record(&sample("mod-a", 100, 40));
    aggregates.record(&sample("mod-a", 200, 60));
    aggregates.record(&sample("mod-b", 5, 5));
    let report = aggregates.render_report();
    assert_eq!(
        report,
        "Performance Report:\n\
         Module: mod-a\n\
         \tRuns: 2\n\
         \tAverage Computation Used: 50\n\
         \tAverage Execution Time (microseconds): 150\n\
         \n\
         Module: mod-b\n\
         \tRuns: 1\n\
         \tAverage Computation Used: 5\n\
         \tAverage Execution Time (microseconds): 5\n\
         \n"
    );
}

#[test]
fn benchmark_saturation_freezes_the_record() {
    let mut a = AggregatePerformanceData::new(u128::MAX - 5, 10);
    let before = a;
    a.update(&sample("m", 10, 1));
    assert!(a.maxed_out);
    assert_eq!(a.runs, before.runs);
    assert_eq!(a.total_execution_time, before.total_execution_time);
    assert_eq!(a.total_computation_used, before.total_computation_used);

    // Frozen: a further harmless sample changes nothing.
    a.update(&sample("m", 1, 1));
    assert!(a.maxed_out);
    assert_eq!(a.runs, before.runs);
    assert_eq!(a.total_execution_time, before.total_execution_time);
}

#[test]
fn benchmark_fuel_counter_saturates_too() {
    let mut a = AggregatePerformanceData::new(1, u64::MAX - 2);
    a.update(&sample("m", 1, 3));
    assert!(a.maxed_out);
    assert_eq!(a.total_computation_used, u64::MAX - 2);
}

#[test]
fn benchmarking_path_defaults() {
    assert_eq!(default_results_file_path(), "./benchmark_results/metrics.txt");
    let b = Benchmarking::new(None);
    assert_eq!(b.output_file_path, "./benchmark_results/metrics.txt");
    let b = Benchmarking::new(Some("/tmp/out.txt".to_string()));
    assert_eq!(b.output_file_path, "/tmp/out.txt");
}

#[test]
fn storage_quota_refuses_the_whole_write() {
    let mut store = ModuleStorage::new("mod-a".to_string(), 10);
    assert!(store.put("k1".to_string(), b"12345".to_vec()).is_ok());
    assert!(store.put("k2".to_string(), b"67890".to_vec()).is_ok());
    // One more byte would pass the quota: refused in full.
    match store.put("k3".to_string(), b"x".to_vec()) {
        Err(e) => assert_eq!(e.code(), -10),
        Ok(_) => panic!("a write past the quota is refused"),
    }
    assert_eq!(store.get(&"k3".to_string()), None);
    assert_eq!(store.get(&"k1".to_string()), Some(&b"12345".to_vec()));
}

#[test]
fn storage_overwrite_frees_the_old_bytes() {
    let mut store = ModuleStorage::new("mod-a".to_string(), 10);
    assert!(store.put("k".to_string(), b"0123456789".to_vec()).is_ok());
    // Overwriting the same key replaces its bytes instead of adding.
    let prev = store.put("k".to_string(), b"abcdefghij".to_vec()).unwrap();
    assert_eq!(prev, Some(b"0123456789".to_vec()));
    assert_eq!(store.get(&"k".to_string()), Some(&b"abcdefghij".to_vec()));
}

#[test]
fn storage_delete_and_list() {
    let mut store = ModuleStorage::new("mod-a".to_string(), 100);
    assert!(store.put("job/1".to_string(), b"a".to_vec()).is_ok());
    assert!(store.put("job/2".to_string(), b"b".to_vec()).is_ok());
    assert!(store.put("other".to_string(), b"c".to_vec()).is_ok());
    assert_eq!(store.list_keys("job/"), vec!["job/1".to_string(), "job/2".to_string()]);
    assert_eq!(store.delete(&"job/1".to_string()), Some(b"a".to_vec()));
    assert_eq!(store.get(&"job/1".to_string()), None);
    assert_eq!(store.list_keys("job/"), vec!["job/2".to_string()]);
}

#[test]
fn delayed_wheel_releases_matured_messages() {
    let mut wheel = DelayedMessageWheel::new();
    wheel.schedule(DelayedMessage { not_before: 50, message: message("late") });
    wheel.schedule(DelayedMessage { not_before: 10, message: message("early") });
    wheel.schedule(DelayedMessage { not_before: 30, message: message("mid") });
    assert_eq!(wheel.next_deadline(), Some(10));

    let fired = wheel.release_matured(30);
    let channels: Vec<String> = fired.iter().map(|m| m.type_.clone()).collect();
    assert_eq!(channels, vec!["early".to_string(), "mid".to_string()]);
    assert_eq!(wheel.next_deadline(), Some(50));

    let fired = wheel.release_matured(100);
    assert_eq!(fired.len(), 1);
    assert_eq!(fired[0].type_, "late");
    assert_eq!(wheel.next_deadline(), None);
}

#[test]
fn import_planning_binds_known_names_and_skips_glue() {
    let imports = vec![
        "make_named_request".to_string(),
        "__wbindgen_describe".to_string(),
        "storage_get".to_string(),
    ];
    let known = vec!["make_named_request".to_string(), "storage_get".to_string()];
    let bound = plan_imports(&imports, &known).unwrap();
    assert_eq!(bound, vec!["make_named_request".to_string(), "storage_get".to_string()]);
}

#[test]
fn import_planning_reports_the_first_unknown_name() {
    let imports = vec!["storage_get".to_string(), "no_such_call".to_string()];
    let known = vec!["storage_get".to_string()];
    match plan_imports(&imports, &known) {
        Err(LinkError::NoSuchFunction(name)) => {
            assert_eq!(name, "no_such_call");
        }
        Ok(_) => panic!("an unknown import aborts the link"),
    }
    let e = LinkError::NoSuchFunction("no_such_call".to_string());
    assert_eq!(e.description(), "No such function: no_such_call");
}

#[test]
fn toolchain_stubs_do_nothing() {
    plaid::functions::fake_stdio_exit();
    plaid::functions::fake_proc_exit(1);
    plaid::functions::fake_main_main(2);
    plaid::functions::fake_arc4random(3);
    plaid::functions::fake_fd_write(4);
    plaid::functions::fake_tinygo_getCurrentStackPointer(5);
    plaid::functions::fake_runtime_ticks(6);
    plaid::functions::fake_syscall_js_valueGet(7);
    plaid::functions::fake_syscall_js_valuePrepareString(8);
    plaid::functions::fake_syscall_js_valueLoadString(9);
    plaid::functions::fake_syscall_js_finalizeRef(10);
    plaid::functions::fake_wbindgen_describe(11);
    plaid::functions::fake_wbindgen_throw(12, 13);
    plaid::functions::fake_wbindgen_externref_table_set_null(14);
    assert_eq!(fake_wbindgen_externref_table_grow(15), 0);
}

#[test]
fn marshalling_respects_the_buffer_capacity() {
    let data = b"hello".to_vec();
    let (code, written) = marshal_return(&data, 16);
    assert_eq!(code, 5);
    assert_eq!(written, data);
    let (code, written) = marshal_return(&data, 4);
    assert_eq!(code, -2);
    assert!(written.is_empty());
}

#[test]
fn api_and_cache_gating() {
    assert!(check_api_call(true, false, false, true).is_ok());
    assert_eq!(check_api_call(false, false, false, true), Err(FunctionErrors::ApiNotConfigured));
    assert_eq!(check_api_call(true, true, false, true), Err(FunctionErrors::TestMode));
    assert_eq!(
        check_api_call(true, false, false, false),
        Err(FunctionErrors::OperationNotAllowed)
    );

    let enabled = HostEnv::new(
        "m".to_string(),
        LogSource::Internal("i".to_string()),
        Vec::new(),
        LogbacksAllowed::Limited(0),
        false,
        true,
    );
    assert!(check_cache_enabled(&enabled).is_ok());
    let disabled = HostEnv::new(
        "m".to_string(),
        LogSource::Internal("i".to_string()),
        Vec::new(),
        LogbacksAllowed::Limited(0),
        false,
        false,
    );
    match check_cache_enabled(&disabled) {
        Err(e) => assert_eq!(e.code(), -7),
        Ok(_) => panic!("cache calls are disabled without a response role"),
    }
}

#[test]
fn guest_strings_must_be_utf8() {
    let ok = plaid::hostcalls::read_guest_string(&b"hello".to_vec());
    assert_eq!(ok.unwrap(), "hello");
    let bad = plaid::hostcalls::read_guest_string(&vec![0xff, 0xfe]);
    match bad {
        Err(e) => assert_eq!(e.code(), -5),
        Ok(_) => panic!("invalid UTF-8 is refused"),
    }
}

#[test]
fn response_slot_and_accessory_data() {
    let mut env = HostEnv::new(
        "m".to_string(),
        LogSource::Webhook("hook".to_string()),
        vec![(b"x-header".to_vec(), b"value".to_vec())],
        LogbacksAllowed::Limited(0),
        false,
        false,
    );
    assert_eq!(env.get_accessory(&b"x-header".to_vec()), Some(&b"value".to_vec()));
    assert_eq!(env.get_accessory(&b"absent".to_vec()), None);

    env.set_response(b"first".to_vec());
    env.set_response(b"second".to_vec());
    assert_eq!(env.take_response(), Some(b"second".to_vec()));
    assert_eq!(env.take_response(), None);
}

#[test]
fn api_presence_gates_configuration() {
    let none = Apis { yubikey: None };
    assert!(!none.yubikey_configured());
    let some = Apis {
        yubikey: Some(YubikeyConfig {
            client_id: 1,
            secret_key: "AAEC".to_string(),
            api_timeout_seconds: plaid::apis::default_timeout_seconds(),
        }),
    };
    assert!(some.yubikey_configured());
}

#[test]
fn yubikey_checks() {
    assert_eq!(validate_yubi_client_id(0), Err(YubikeyError::BadData));
    assert_eq!(validate_yubi_client_id(42), Ok(42));

    let good = YubikeyConfig {
        client_id: 42,
        secret_key: "AAEC".to_string(),
        api_timeout_seconds: 5,
    };
    assert_eq!(good.decode_secret_key().unwrap(), vec![0u8, 1, 2]);

    let bad = YubikeyConfig {
        client_id: 42,
        secret_key: "!!not-base64!!".to_string(),
        api_timeout_seconds: 5,
    };
    assert_eq!(bad.decode_secret_key(), Err(YubikeyError::BadData));
}
