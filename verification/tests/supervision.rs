use gpu_miner_watch::hardware::{
    merge_device_parameters, GpuParametersReader, NvidiaGpuReader, OperatingSystem,
};
use gpu_miner_watch::launch::{
    grid_size_string, ConfigurationError, EngineType, GpuDevice, GpuMinerAdapter, GpuNodeSource,
    MinerNetwork,
};
use gpu_miner_watch::status::{
    watch_latest, FetchOutcome, FetchResult, GpuMinerStatus, GpuMinerStatusMonitor, HealthStatus,
    StatusBroadcast,
};
use gpu_miner_watch::telemetry::HashRate;

fn devices(n: usize) -> Vec<GpuDevice> {
    let mut v = Vec::new();
    for i in 0..n {
        v.push(GpuDevice {
            device_index: i as u32,
            name: format!("gpu{}", i),
        });
    }
    v
}

fn monitor_with_receiver(
    port: u16,
) -> (
    GpuMinerStatusMonitor,
    tokio::sync::watch::Receiver<Option<GpuMinerStatus>>,
) {
    let (broadcast, receiver) = StatusBroadcast::new();
    (
        GpuMinerStatusMonitor {
            http_api_port: port,
            gpu_raw_status_broadcast: broadcast,
        },
        receiver,
    )
}

fn body(text: &str) -> FetchResult {
    FetchResult::Body(text.as_bytes().to_vec())
}

fn rate(mantissa: u64, exp10: i64) -> HashRate {
    HashRate {
        negative: false,
        mantissa,
        exp10,
    }
}

#[test]
fn grid_size_four_devices_half_usage() {
    assert_eq!(grid_size_string(4, 50), "4098,4098,4098,4098");
}

#[test]
fn grid_size_edges() {
    assert_eq!(grid_size_string(0, 50), "");
    assert_eq!(grid_size_string(1, 100), "8196");
    assert_eq!(grid_size_string(3, 0), "0,0,0");
}

#[test]
fn grid_size_saturates_instead_of_wrapping() {
    // 8196 * 600000 overflows a u32; the product clamps at u32::MAX and is
    // then divided by one hundred.
    assert_eq!(grid_size_string(2, 600_000), "42949672,42949672");
}

#[test]
fn launch_spec_fails_without_node_source() {
    let (broadcast, _receiver) = StatusBroadcast::new();
    let adapter = GpuMinerAdapter::new(devices(2), broadcast, 18142);
    let r = adapter.spawn_inner("/data", "/config", "/logs", "/bin/glytex", MinerNetwork::MainNet);
    match r {
        Err(e) => assert_eq!(e, ConfigurationError::NodeSourceMissing),
        Ok(_) => panic!("a launch spec without a node source must fail"),
    }
}

#[test]
fn launch_spec_args_and_env() {
    let (broadcast, _receiver) = StatusBroadcast::new();
    let mut adapter = GpuMinerAdapter::new(devices(4), broadcast, 18142);
    adapter.tari_address_base58 = "addr58".to_string();
    adapter.node_source = Some(GpuNodeSource::BaseNode {
        grpc_address: "http://127.0.0.1:18102".to_string(),
    });
    adapter.gpu_usage_percentage = 50;
    adapter.current_selected_engine = EngineType::OpenCL;
    assert_eq!(adapter.name(), "glytex");
    assert_eq!(adapter.pid_file_name(), "glytex_pid");
    let (spec, monitor) = adapter
        .spawn_inner("/data", "/config", "/logs", "/bin/glytex", MinerNetwork::MainNet)
        .expect("node source is present");
    let expected = vec![
        "--tari-address",
        "addr58",
        "--tari-node-url",
        "http://127.0.0.1:18102",
        "--config",
        "/config/gpuminer/config.json",
        "--http-server-port",
        "18142",
        "--grid-size",
        "4098,4098,4098,4098",
        "--log-config-file",
        "/config/gpuminer/log4rs_config.yml",
        "--gpu-status-file",
        "/config/gpuminer/engine_statuses",
        "--log-dir",
        "/logs",
        "--template-timeout-secs",
        "5",
        "--engine",
        "OpenCL",
        "--coinbase-extra",
        "tari-universe",
    ];
    let got: Vec<&str> = spec.args.iter().map(|a| a.as_str()).collect();
    assert_eq!(got, expected);
    assert_eq!(spec.envs.len(), 1);
    assert_eq!(spec.envs[0].0, "TARI_NETWORK");
    assert_eq!(spec.envs[0].1, "mainnet");
    assert_eq!(spec.file_path, "/bin/glytex");
    assert_eq!(spec.data_dir, "/data");
    assert_eq!(spec.pid_file_name, "glytex_pid");
    assert_eq!(spec.name, "glytex");
    assert_eq!(monitor.http_api_port, 18142);
}

#[test]
fn network_codes_are_the_closed_vocabulary() {
    let (broadcast, _receiver) = StatusBroadcast::new();
    let mut adapter = GpuMinerAdapter::new(devices(1), broadcast, 1);
    adapter.node_source = Some(GpuNodeSource::BaseNode {
        grpc_address: "grpc".to_string(),
    });
    let cases = vec![
        (MinerNetwork::MainNet, "mainnet"),
        (MinerNetwork::StageNet, "stagenet"),
        (MinerNetwork::NextNet, "nextnet"),
        (MinerNetwork::Esmeralda, "esme"),
        (MinerNetwork::Igor, "igor"),
        (MinerNetwork::LocalNet, "localnet"),
    ];
    for (network, code) in cases {
        let (spec, _monitor) = adapter
            .spawn_inner("/d", "/c", "/l", "/b", network)
            .expect("node source is present");
        assert_eq!(spec.envs[0].1, code);
    }
}

#[test]
fn zero_rate_healthy_inside_grace_period() {
    let (mut monitor, _receiver) = monitor_with_receiver(1);
    let b = r#"{"hashrate_per_device":{},"total_hashrate":{"ten_seconds":0.0}}"#;
    let r = monitor.check_health(FetchOutcome::Completed(body(b)), 5);
    assert_eq!(r, HealthStatus::Healthy);
}

#[test]
fn zero_rate_warning_after_grace_period() {
    let (mut monitor, _receiver) = monitor_with_receiver(1);
    let b = r#"{"hashrate_per_device":{},"total_hashrate":{"ten_seconds":0.0}}"#;
    let r = monitor.check_health(FetchOutcome::Completed(body(b)), 11);
    assert_eq!(r, HealthStatus::Warning);
}

#[test]
fn positive_rate_healthy_at_any_uptime() {
    let (mut monitor, _receiver) = monitor_with_receiver(1);
    let b = r#"{"hashrate_per_device":{},"total_hashrate":{"ten_seconds":0.001}}"#;
    let r = monitor.check_health(FetchOutcome::Completed(body(b)), 1_000_000);
    assert_eq!(r, HealthStatus::Healthy);
}

#[test]
fn timeout_warning_publishes_unknown() {
    let (mut monitor, receiver) = monitor_with_receiver(1);
    // First a known value sits in the slot...
    let b = r#"{"total_hashrate":{"ten_seconds":5}}"#;
    monitor.check_health(FetchOutcome::Completed(body(b)), 30);
    assert!(watch_latest(&receiver).is_some());
    // ...then a timeout replaces it with "unknown", never a zero-rate value.
    let r = monitor.check_health(FetchOutcome::TimedOut, 30);
    assert_eq!(r, HealthStatus::Warning);
    assert_eq!(watch_latest(&receiver), None);
}

#[test]
fn transport_failure_and_malformed_json_reduce_identically() {
    let (monitor, _receiver) = monitor_with_receiver(1);
    let from_transport = monitor.status(FetchResult::SendFailed).unwrap();
    let from_garbage = monitor.status(body("not json at all")).unwrap();
    assert_eq!(from_transport, from_garbage);
    assert!(!from_transport.is_mining);
    assert_eq!(from_transport.hash_rate, rate(0, 0));
    assert_eq!(from_transport.estimated_earnings, 0);
    let (mut m1, _r1) = monitor_with_receiver(1);
    let (mut m2, _r2) = monitor_with_receiver(1);
    let h1 = m1.check_health(FetchOutcome::Completed(FetchResult::SendFailed), 42);
    let h2 = m2.check_health(FetchOutcome::Completed(body("{broken")), 42);
    assert_eq!(h1, h2);
}

#[test]
fn body_read_failure_is_unhealthy() {
    let (mut monitor, receiver) = monitor_with_receiver(1);
    let r = monitor.check_health(FetchOutcome::Completed(FetchResult::BodyFailed), 30);
    assert_eq!(r, HealthStatus::Unhealthy);
    assert_eq!(watch_latest(&receiver), None);
}

#[test]
fn worker_reported_rate_publishes_and_classifies_healthy() {
    let (mut monitor, receiver) = monitor_with_receiver(1);
    let b = r#"{"total_hashrate":{"ten_seconds":123.4}}"#;
    let r = monitor.check_health(FetchOutcome::Completed(body(b)), 30);
    assert_eq!(r, HealthStatus::Healthy);
    let published = watch_latest(&receiver).expect("a known status was published");
    assert!(published.is_mining);
    // 123.4 is 1234 * 10^-1 in the library's decimal representation.
    assert_eq!(published.hash_rate, rate(1234, -1));
    assert_eq!(published.estimated_earnings, 0);
}

#[test]
fn unreachable_worker_in_grace_period_is_healthy() {
    let (mut monitor, receiver) = monitor_with_receiver(1);
    let r = monitor.check_health(FetchOutcome::Completed(FetchResult::SendFailed), 2);
    assert_eq!(r, HealthStatus::Healthy);
    let published = watch_latest(&receiver).expect("the default status was published");
    assert!(!published.is_mining);
    assert_eq!(published.hash_rate, rate(0, 0));
}

#[test]
fn decode_tolerates_whitespace_devices_and_unknown_members() {
    let (monitor, _receiver) = monitor_with_receiver(1);
    let b = r#" {
        "version": [1, {"deep": {"er": []}}, "x"],
        "hashrate_per_device": {"0": {"ten_seconds": 1.5, "one_minute": null}, "1": {}},
        "total_hashrate": {"ten_seconds": 2e3, "extra": true}
    } "#;
    let st = monitor.status(body(b)).unwrap();
    assert!(st.is_mining);
    assert_eq!(st.hash_rate, rate(2, 3));
}

#[test]
fn decode_failures_fold_to_default() {
    let (monitor, _receiver) = monitor_with_receiver(1);
    let default = monitor.status(FetchResult::SendFailed).unwrap();
    // Missing required aggregate member.
    assert_eq!(monitor.status(body("{}")).unwrap(), default);
    // Duplicate recognized member.
    let dup = r#"{"total_hashrate":{"ten_seconds":1},"total_hashrate":{"ten_seconds":2}}"#;
    assert_eq!(monitor.status(body(dup)).unwrap(), default);
    // Trailing content after the document.
    let trailing = r#"{"total_hashrate":{}} x"#;
    assert_eq!(monitor.status(body(trailing)).unwrap(), default);
    // A string where a number or null is demanded.
    let wrong_type = r#"{"total_hashrate":{"ten_seconds":"fast"}}"#;
    assert_eq!(monitor.status(body(wrong_type)).unwrap(), default);
}

#[test]
fn absent_window_counts_as_zero_rate() {
    let (mut monitor, _receiver) = monitor_with_receiver(1);
    let b = r#"{"total_hashrate":{"one_minute":9.9}}"#;
    let st = monitor.status(body(b)).unwrap();
    assert!(st.is_mining);
    assert_eq!(st.hash_rate, rate(0, 0));
    // A mining worker with no short-window average yet is still in the
    // zero-rate classification path.
    let r = monitor.check_health(FetchOutcome::Completed(body(b)), 60);
    assert_eq!(r, HealthStatus::Warning);
}

#[test]
fn negative_and_zero_rates_are_not_positive() {
    let (monitor, _receiver) = monitor_with_receiver(1);
    let neg = monitor
        .status(body(r#"{"total_hashrate":{"ten_seconds":-5.0}}"#))
        .unwrap();
    assert!(!neg.hash_rate.is_positive());
    let zero = monitor
        .status(body(r#"{"total_hashrate":{"ten_seconds":0.000}}"#))
        .unwrap();
    assert!(!zero.hash_rate.is_positive());
    let pos = monitor
        .status(body(r#"{"total_hashrate":{"ten_seconds":0.0001}}"#))
        .unwrap();
    assert!(pos.hash_rate.is_positive());
}

#[test]
fn stats_url_renders_the_assigned_port() {
    let (monitor, _receiver) = monitor_with_receiver(18142);
    assert_eq!(monitor.stats_url(), "http://127.0.0.1:18142/stats");
}

#[test]
fn publish_roundtrip_through_the_slot() {
    let (mut broadcast, receiver) = StatusBroadcast::new();
    assert_eq!(watch_latest(&receiver), None);
    let st = GpuMinerStatus {
        is_mining: true,
        hash_rate: rate(7, 0),
        estimated_earnings: 0,
    };
    broadcast.publish(Some(st));
    assert_eq!(watch_latest(&receiver), Some(st));
    broadcast.publish(None);
    assert_eq!(watch_latest(&receiver), None);
}

#[test]
fn running_max_is_monotonic_across_reads() {
    let temps = vec![70u32, 90, 60, 50, 95, 10];
    let mut previous = None;
    let mut last_max = 0u32;
    for (i, t) in temps.iter().enumerate() {
        let p = merge_device_parameters(previous, (i as u32) * 10, *t);
        assert_eq!(p.current_temperature, *t);
        assert_eq!(p.usage_percentage, (i as u32) * 10);
        assert!(p.max_temperature >= last_max);
        assert!(p.max_temperature >= *t);
        last_max = p.max_temperature;
        previous = Some(p);
    }
    assert_eq!(last_max, 95);
}

#[test]
fn nvidia_reader_is_never_implemented_on_macos() {
    let reader = NvidiaGpuReader::new();
    assert!(!reader.get_is_reader_implemented(OperatingSystem::MacOS));
}

#[test]
fn nvidia_reader_queries_do_not_panic_without_a_device() {
    let reader = NvidiaGpuReader::new();
    // On a machine without the vendor library every step degrades to an
    // explicit error, never a panic or a silent default.
    if let Ok(p) = reader.get_device_parameters(None) {
        assert_eq!(p.max_temperature, p.current_temperature);
    }
}

#[test]
fn body_read_failure_is_the_only_status_error() {
    let (monitor, _receiver) = monitor_with_receiver(1);
    assert!(matches!(
        monitor.status(FetchResult::BodyFailed),
        Err(gpu_miner_watch::status::StatusError::BodyUnavailable)
    ));
}

#[test]
fn rate_mantissa_saturates_beyond_64_bits() {
    let (monitor, _receiver) = monitor_with_receiver(1);
    // 2^64 does not fit; the mantissa clamps at the largest 64-bit value,
    // so positivity is preserved.
    let b = r#"{"total_hashrate":{"ten_seconds":18446744073709551616}}"#;
    let st = monitor.status(body(b)).unwrap();
    assert_eq!(st.hash_rate.mantissa, u64::MAX);
    assert_eq!(st.hash_rate.exp10, 0);
    assert!(st.hash_rate.is_positive());
}

#[test]
fn rate_exponent_clamps_in_the_signed_64_bit_range() {
    let (monitor, _receiver) = monitor_with_receiver(1);
    let b = r#"{"total_hashrate":{"ten_seconds":1e-99999999999999999999}}"#;
    let st = monitor.status(body(b)).unwrap();
    assert_eq!(st.hash_rate.mantissa, 1);
    assert_eq!(st.hash_rate.exp10, i64::MIN);
    assert!(st.hash_rate.is_positive());
}

#[test]
fn strict_number_grammar_is_enforced() {
    let (monitor, _receiver) = monitor_with_receiver(1);
    let default = monitor.status(FetchResult::SendFailed).unwrap();
    for bad in ["01", "1.", ".5", "+1", "1e", "--1"] {
        let doc = format!(r#"{{"total_hashrate":{{"ten_seconds":{}}}}}"#, bad);
        assert_eq!(
            monitor.status(body(&doc)).unwrap(),
            default,
            "number {} must fail the decode",
            bad
        );
    }
}
