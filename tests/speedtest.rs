use cfspeedtest::speedtest::{
    average_latency, collect_measurements, extract_header_value, test_plan, AdaptiveTestRunner,
    LatencySeries, Measurement, Metadata, PayloadSize, RunnerAction, TestType,
};
use cfspeedtest::timing::{
    latency_from_duration, latency_from_timing, parse_millis_as_micros, test_latency,
    throughput_bits_per_sec, upload_payload, ProbeError,
};
use cfspeedtest::{OutputFormat, SpeedTestOptions};

/// Drives a runner to the end, feeding it the given batch durations in
/// order and a throughput equal to the payload size. Returns the payload
/// sizes of the batches started.
fn drive(runner: &mut AdaptiveTestRunner, batch_micros: &[u64]) -> Vec<usize> {
    let mut started = Vec::new();
    let mut batch = 0;
    loop {
        match runner.next_action() {
            RunnerAction::StartBatch { payload_size } => {
                started.push(payload_size);
                runner.start_batch();
            }
            RunnerAction::Probe { payload_size } => runner.record_probe(payload_size as u128),
            RunnerAction::EndBatch => {
                runner.end_batch(batch_micros[batch]);
                batch += 1;
            }
            RunnerAction::Done => return started,
        }
    }
}

#[test]
fn ladder_for_each_maximum() {
    assert_eq!(PayloadSize::sizes_from_max(PayloadSize::K100), vec![100_000]);
    assert_eq!(PayloadSize::sizes_from_max(PayloadSize::M1), vec![100_000, 1_000_000]);
    assert_eq!(
        PayloadSize::sizes_from_max(PayloadSize::M10),
        vec![100_000, 1_000_000, 10_000_000]
    );
    assert_eq!(
        PayloadSize::sizes_from_max(PayloadSize::M25),
        vec![100_000, 1_000_000, 10_000_000, 25_000_000]
    );
    assert_eq!(
        PayloadSize::sizes_from_max(PayloadSize::M100),
        vec![100_000, 1_000_000, 10_000_000, 25_000_000, 100_000_000]
    );
}

#[test]
fn ladder_prefixes_are_strictly_increasing() {
    for max in [PayloadSize::K100, PayloadSize::M1, PayloadSize::M10, PayloadSize::M25, PayloadSize::M100] {
        let sizes = PayloadSize::sizes_from_max(max);
        assert!(!sizes.is_empty());
        assert!(sizes.windows(2).all(|w| w[0] < w[1]));
        assert_eq!(*sizes.last().unwrap(), max.bytes());
    }
}

#[test]
fn payload_size_from_names() {
    assert_eq!(PayloadSize::from("100k".to_string()), Ok(PayloadSize::K100));
    assert_eq!(PayloadSize::from("100KB".to_string()), Ok(PayloadSize::K100));
    assert_eq!(PayloadSize::from("1_000_000".to_string()), Ok(PayloadSize::M1));
    assert_eq!(PayloadSize::from("10M".to_string()), Ok(PayloadSize::M10));
    assert_eq!(PayloadSize::from("25000000".to_string()), Ok(PayloadSize::M25));
    assert_eq!(PayloadSize::from("100mb".to_string()), Ok(PayloadSize::M100));
    assert_eq!(
        PayloadSize::from("2m".to_string()),
        Err("Value needs to be one of 100k, 1m, 10m, 25m or 100m".to_string())
    );
}

#[test]
fn payload_size_bytes() {
    assert_eq!(PayloadSize::K100.bytes(), 100_000);
    assert_eq!(PayloadSize::M100.bytes(), 100_000_000);
}

#[test]
fn output_format_from_names() {
    assert_eq!(OutputFormat::from("CSV".to_string()), Ok(OutputFormat::Csv));
    assert_eq!(OutputFormat::from("json".to_string()), Ok(OutputFormat::Json));
    assert_eq!(OutputFormat::from("json_pretty".to_string()), Ok(OutputFormat::JsonPretty));
    assert_eq!(OutputFormat::from("Json-Pretty".to_string()), Ok(OutputFormat::JsonPretty));
    assert_eq!(OutputFormat::from("StdOut".to_string()), Ok(OutputFormat::StdOut));
    assert_eq!(
        OutputFormat::from("xml".to_string()),
        Err("Value needs to be one of csv, json or json-pretty".to_string())
    );
    assert_eq!(OutputFormat::from_folded("CSV"), OutputFormat::from_folded("xml"));
}

#[test]
fn default_options() {
    let o = SpeedTestOptions::default();
    assert_eq!(o.nr_tests, 10);
    assert_eq!(o.nr_latency_tests, 25);
    assert_eq!(o.max_payload_size, PayloadSize::M25);
    assert_eq!(o.output_format, OutputFormat::Quiet);
    assert!(o.should_download());
    assert!(o.should_upload());
}

#[test]
fn direction_flags_are_independent() {
    let mut o = SpeedTestOptions::default();
    o.download_only = true;
    assert!(o.should_download());
    assert!(!o.should_upload());
    o.download_only = false;
    o.upload_only = true;
    assert!(!o.should_download());
    assert!(o.should_upload());
    o.download_only = true;
    assert!(o.should_download());
    assert!(o.should_upload());
}

#[test]
fn millis_text_to_micros() {
    assert_eq!(parse_millis_as_micros("12.345"), Some(12_345));
    assert_eq!(parse_millis_as_micros("0.5"), Some(500));
    assert_eq!(parse_millis_as_micros("7"), Some(7_000));
    assert_eq!(parse_millis_as_micros(".25"), Some(250));
    assert_eq!(parse_millis_as_micros("5."), Some(5_000));
    assert_eq!(parse_millis_as_micros("1.23456"), Some(1_234));
    assert_eq!(parse_millis_as_micros(""), None);
    assert_eq!(parse_millis_as_micros("."), None);
    assert_eq!(parse_millis_as_micros("1.2.3"), None);
    assert_eq!(parse_millis_as_micros("abc"), None);
    assert_eq!(parse_millis_as_micros("99999999999999999999"), None);
}

#[test]
fn latency_is_clamped_at_zero() {
    assert_eq!(latency_from_timing(100, 250), 0);
    assert_eq!(latency_from_timing(250, 100), 150);
    assert_eq!(test_latency(10_000, Some("cfRequestDuration;dur=12.5".to_string())), Ok(0));
}

#[test]
fn latency_from_timing_header() {
    assert_eq!(test_latency(20_000, Some("cfRequestDuration;dur=12.5".to_string())), Ok(7_500));
    assert_eq!(
        test_latency(1_000, Some("cfEdge;dur=3, cfRequestDuration;dur=0.123".to_string())),
        Ok(877)
    );
    assert_eq!(test_latency(1_000, None), Err(ProbeError::MissingServerTiming));
    assert_eq!(
        test_latency(1_000, Some("cfEdge;dur=3".to_string())),
        Err(ProbeError::MalformedServerTiming)
    );
    assert_eq!(
        test_latency(1_000, Some("cfRequestDuration;dur=1.2.3".to_string())),
        Err(ProbeError::MalformedServerTiming)
    );
    assert_eq!(latency_from_duration(5_000, Some("2".to_string())), Ok(3_000));
    assert_eq!(latency_from_duration(5_000, None), Err(ProbeError::MalformedServerTiming));
}

#[test]
fn throughput_formula() {
    assert_eq!(throughput_bits_per_sec(1_000_000, 1_000_000), 8_000_000);
    assert_eq!(throughput_bits_per_sec(1_000_000, 500_000), 16_000_000);
    assert_eq!(throughput_bits_per_sec(100_000, 3), 266_666_666_666);
}

#[test]
fn upload_body() {
    assert_eq!(upload_payload(5), vec![1u8; 5]);
    assert!(upload_payload(0).is_empty());
}

#[test]
fn latency_series_runs_one_more_than_configured() {
    let mut series = LatencySeries::new(3);
    let mut next = 10;
    while series.needs_probe() {
        series.record(next);
        next += 10;
    }
    let (samples, avg) = series.finish();
    assert_eq!(samples, vec![10, 20, 30, 40]);
    assert_eq!(avg, 25);
}

#[test]
fn latency_series_of_zero_has_one_sample() {
    let mut series = LatencySeries::new(0);
    assert!(series.needs_probe());
    series.record(42);
    assert!(!series.needs_probe());
    assert_eq!(series.finish(), (vec![42], 42));
}

#[test]
fn average_rounds_down() {
    assert_eq!(average_latency(&vec![1, 2]), 1);
    assert_eq!(average_latency(&vec![u64::MAX, u64::MAX]), u64::MAX);
}

#[test]
fn slow_batch_stops_dynamic_walk() {
    let sizes = PayloadSize::sizes_from_max(PayloadSize::M100);
    let mut runner = AdaptiveTestRunner::new(TestType::Download, sizes, 3, false);
    let started = drive(&mut runner, &[5_000_001]);
    assert_eq!(started, vec![100_000]);
    assert_eq!(runner.measurements().len(), 3);
}

#[test]
fn batch_at_limit_does_not_stop_walk() {
    let sizes = PayloadSize::sizes_from_max(PayloadSize::M1);
    let mut runner = AdaptiveTestRunner::new(TestType::Upload, sizes, 1, false);
    let started = drive(&mut runner, &[5_000_000, 5_000_000]);
    assert_eq!(started, vec![100_000, 1_000_000]);
}

#[test]
fn static_sizing_walks_every_entry() {
    let sizes = PayloadSize::sizes_from_max(PayloadSize::M100);
    let mut runner = AdaptiveTestRunner::new(TestType::Upload, sizes.clone(), 2, true);
    let started = drive(&mut runner, &[9_000_000; 5]);
    assert_eq!(started, sizes);
    let ms = runner.into_measurements();
    assert_eq!(ms.len(), 10);
    assert!(ms.iter().all(|m| m.test_type == TestType::Upload));
    assert_eq!(ms[9].payload_size, 100_000_000);
}

#[test]
fn zero_repetitions_make_no_measurements() {
    let sizes = PayloadSize::sizes_from_max(PayloadSize::M10);
    let mut runner = AdaptiveTestRunner::new(TestType::Download, sizes, 0, false);
    let started = drive(&mut runner, &[0, 0, 0]);
    assert_eq!(started.len(), 3);
    assert!(runner.measurements().is_empty());
}

fn download_only_options() -> SpeedTestOptions {
    let mut o = SpeedTestOptions::default();
    o.nr_tests = 2;
    o.max_payload_size = PayloadSize::M10;
    o.download_only = true;
    o
}

#[test]
fn end_to_end_download_only_fast_link() {
    let mut runners = test_plan(&download_only_options());
    assert_eq!(runners.len(), 1);
    assert_eq!(runners[0].test_type(), TestType::Download);
    let started = drive(&mut runners[0], &[1_000, 1_000, 1_000]);
    assert_eq!(started, vec![100_000, 1_000_000, 10_000_000]);
    let ms = collect_measurements(&runners);
    assert_eq!(ms.len(), 6);
    let sizes: Vec<usize> = ms.iter().map(|m| m.payload_size).collect();
    assert_eq!(sizes, vec![100_000, 100_000, 1_000_000, 1_000_000, 10_000_000, 10_000_000]);
    assert!(ms.iter().all(|m| m.test_type == TestType::Download));
}

#[test]
fn end_to_end_download_only_slow_link() {
    let mut runners = test_plan(&download_only_options());
    drive(&mut runners[0], &[1_000, 6_000_000]);
    let ms = collect_measurements(&runners);
    assert_eq!(ms.len(), 4);
    assert!(ms.iter().all(|m| m.test_type == TestType::Download));

    let mut runners = test_plan(&download_only_options());
    drive(&mut runners[0], &[6_000_000]);
    assert_eq!(collect_measurements(&runners).len(), 2);
}

#[test]
fn plan_runs_downloads_then_uploads() {
    let mut o = SpeedTestOptions::default();
    o.nr_tests = 1;
    o.max_payload_size = PayloadSize::K100;
    let mut runners = test_plan(&o);
    assert_eq!(runners.len(), 2);
    assert_eq!(runners[0].test_type(), TestType::Download);
    assert_eq!(runners[1].test_type(), TestType::Upload);
    for r in runners.iter_mut() {
        drive(r, &[10]);
    }
    let ms = collect_measurements(&runners);
    assert_eq!(
        ms,
        vec![
            Measurement { test_type: TestType::Download, payload_size: 100_000, bits_per_sec: 100_000 },
            Measurement { test_type: TestType::Upload, payload_size: 100_000, bits_per_sec: 100_000 },
        ]
    );
}

#[test]
fn metadata_defaults_to_unknown() {
    let m = Metadata::from_headers(
        Some("Zurich".to_string()),
        Some("CH".to_string()),
        None,
        Some("13335".to_string()),
        None,
    );
    assert_eq!(m.city().as_str(), "Zurich");
    assert_eq!(m.ip().as_str(), "<unknown>");
    assert_eq!(m.colo().as_str(), "<unknown>");
    assert_eq!(
        m.describe(),
        "City: Zurich\nCountry: CH\nIp: <unknown>\nAsn: 13335\nColo: <unknown>"
    );
}

#[test]
fn header_value_or_sentinel() {
    assert_eq!(extract_header_value(Some("ZRH".to_string()), "n/a"), "ZRH");
    assert_eq!(extract_header_value(None, "n/a"), "n/a");
}

#[test]
fn folded_names_are_matched_exactly() {
    assert_eq!(OutputFormat::from_folded("json-pretty"), Ok(OutputFormat::JsonPretty));
    assert_eq!(PayloadSize::from_folded("10mb"), Ok(PayloadSize::M10));
    assert!(PayloadSize::from_folded("10MB").is_err());
    assert!(PayloadSize::from_folded("").is_err());
}
