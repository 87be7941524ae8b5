use stylus::ping::{
    default_blue, default_count, default_green, default_orange, default_red,
    default_warning_timeout, default_yellow, launch_failure_report, parse_ping_output,
    PingMonitorConfig, PingResult, SurgePingMonitorMessageProcessor,
    SurgePingMonitorMessageProcessorInstance,
};

const LINUX_OUTPUT: &str = r#"
PING 8.8.8.8 (8.8.8.8) 56(84) bytes of data.
64 bytes from 8.8.8.8: icmp_seq=1 ttl=115 time=19.7 ms
64 bytes from 8.8.8.8: icmp_seq=2 ttl=115 time=19.7 ms
64 bytes from 8.8.8.8: icmp_seq=3 ttl=115 time=19.4 ms
^C
--- 8.8.8.8 ping statistics ---
3 packets transmitted, 3 received, 0% packet loss, time 2004ms
rtt min/avg/max/mdev = 19.392/19.611/19.746/0.156 ms
"#;

const LINUX_OUTPUT_WITH_LOSS: &str = r#"
PING 8.8.8.1 (8.8.8.1) 56(84) bytes of data.

--- 8.8.8.1 ping statistics ---
2 packets transmitted, 0 received, 100% packet loss, time 1033ms
"#;

const MACOS_OUTPUT: &str = r#"
PING 8.8.8.8 (8.8.8.8): 56 data bytes
64 bytes from 8.8.8.8: icmp_seq=0 ttl=115 time=24.027 ms
64 bytes from 8.8.8.8: icmp_seq=1 ttl=115 time=22.841 ms

--- 8.8.8.8 ping statistics ---
2 packets transmitted, 2 packets received, 0.0% packet loss
round-trip min/avg/max/stddev = 22.841/23.434/24.027/0.593 ms
"#;

const MACOS_OUTPUT_WITH_LOSS: &str = r#"
PING 8.8.8.1 (8.8.8.1): 56 data bytes
Request timeout for icmp_seq 0

--- 8.8.8.1 ping statistics ---
2 packets transmitted, 0 packets received, 100.0% packet loss
"#;

const WINDOWS_OUTPUT: &str = r#"
Reply from 8.8.8.8: bytes=1500 time=30ms TTL=54
Reply from 8.8.8.8: bytes=1500 time=30ms TTL=54
Reply from 8.8.8.8: bytes=1500 time=29ms TTL=54
Reply from 8.8.8.8: bytes=1500 time=30ms TTL=54
Reply from 8.8.8.8: bytes=1500 time=31ms TTL=54
Ping statistics for 172.217.1.142:
    Packets: Sent = 5, Received = 5, Lost = 0 (0% loss),
Approximate round trip times in milli-seconds:
    Minimum = 29ms, Maximum = 31ms, Average = 30ms
"#;

const SUB_MS_OUTPUT: &str = r#"
64 bytes from 8.8.8.8: icmp_seq=0 ttl=115 time<1 ms
64 bytes from 8.8.8.8: icmp_seq=2 ttl=115 time<1ms
Reply from 8.8.8.8: bytes=1500 time=<1ms TTL=54
Reply from 8.8.8.8: bytes=1500 time=<1 ms TTL=54
"#;

fn expect_pings(s: &str, expected: Vec<f64>) {
    let mut times = vec![];
    for line in s.lines() {
        let rtt = parse_ping_output(line);
        if let Some(rtt) = rtt {
            times.push(rtt);
        }
    }

    assert!(
        times.len() == expected.len(),
        "Expected {:?}, got {:?}",
        expected,
        times
    );
    for (i, time) in times.iter().enumerate() {
        assert!(
            (*time as f64 - expected[i] * 1000.0).abs() < 1.0,
            "Expected {:?}, got {:?}",
            expected[i],
            time
        );
    }
}

#[test]
fn test_ping_config_creation() {
    let config = PingMonitorConfig {
        host: "8.8.8.8".to_string(),
        interval: 60 * 1000 * 1000,
        timeout: 5 * 1000 * 1000,
        warning_timeout: 1000 * 1000,
        count: 1,
        red: default_red(),
        green: default_green(),
        blue: default_blue(),
        orange: default_orange(),
        yellow: default_yellow(),
        test: None,
    };

    let test_config = config.test();
    assert_eq!(test_config.interval, 60 * 1000 * 1000);
    assert_eq!(test_config.timeout, 5 * 1000 * 1000);
}

#[test]
fn test_parse_ping_output() {
    expect_pings(LINUX_OUTPUT, vec![19.7, 19.7, 19.4]);
    expect_pings(MACOS_OUTPUT, vec![24.027, 22.841]);
    expect_pings(WINDOWS_OUTPUT, vec![30.0, 30.0, 29.0, 30.0, 31.0]);
    expect_pings(SUB_MS_OUTPUT, vec![1.0, 1.0]);
}

#[test]
fn test_parse_ping_output_with_loss() {
    expect_pings(LINUX_OUTPUT_WITH_LOSS, vec![]);
    expect_pings(MACOS_OUTPUT_WITH_LOSS, vec![]);
}

#[test]
fn parse_exact_values() {
    assert_eq!(
        parse_ping_output("64 bytes from 8.8.8.8: icmp_seq=1 ttl=115 time=19.7 ms"),
        Some(19700)
    );
    assert_eq!(
        parse_ping_output("Reply from 8.8.8.8: bytes=1500 time=30ms TTL=54"),
        Some(30000)
    );
    assert_eq!(parse_ping_output("no marker in this line"), None);
    assert_eq!(parse_ping_output("reply with time<1ms marker"), Some(1000));
}

#[test]
fn parse_decimal_edges() {
    assert_eq!(parse_ping_output("time=5. ms"), Some(5000));
    assert_eq!(parse_ping_output("time=.5 ms"), Some(500));
    assert_eq!(parse_ping_output("time=0.1234 ms"), Some(123));
    assert_eq!(parse_ping_output("time=. ms"), None);
    assert_eq!(parse_ping_output("time=1.2.3 ms"), None);
    assert_eq!(parse_ping_output("time= ms"), None);
    assert_eq!(parse_ping_output("time=<1ms TTL=54"), None);
}

fn default_processor(host: &str, count: u32) -> SurgePingMonitorMessageProcessor {
    SurgePingMonitorMessageProcessor {
        host: host.to_string(),
        count,
        timeout: 5 * 1000 * 1000,
        warning_timeout: default_warning_timeout(),
        red: default_red(),
        green: default_green(),
        blue: default_blue(),
        orange: default_orange(),
        yellow: default_yellow(),
    }
}

#[test]
fn three_received_samples_go_green() {
    let processor = default_processor("8.8.8.8", 3);
    let mut instance = processor.new();
    let out1 =
        instance.process_message("64 bytes from 8.8.8.8: icmp_seq=1 ttl=115 time=19.7 ms");
    assert!(out1.is_empty());
    instance.process_message("64 bytes from 8.8.8.8: icmp_seq=2 ttl=115 time=19.7 ms");
    instance.process_message("64 bytes from 8.8.8.8: icmp_seq=3 ttl=115 time=19.4 ms");
    let report = instance.finalize();
    assert_eq!(
        report,
        vec![
            "status.metadata.count=\"3\"".to_string(),
            "status.metadata.lost=\"0\"".to_string(),
            "status.metadata.received=\"3\"".to_string(),
            "status.metadata.rtt_avg=\"19600\"".to_string(),
            "status.metadata.rtt_max=\"19700\"".to_string(),
            "status.metadata.rtt_min=\"19400\"".to_string(),
            "status.metadata.warning_timeout=\"1000000\"".to_string(),
            "status.status=\"green\"".to_string(),
        ]
    );
}

#[test]
fn two_lost_observations_go_red() {
    let processor = default_processor("8.8.8.1", 2);
    let mut instance = processor.new();
    instance.ping_results.push(PingResult {
        rtt_us: None,
        received: false,
    });
    instance.ping_results.push(PingResult {
        rtt_us: None,
        received: false,
    });
    let report = instance.finalize();
    assert_eq!(
        report,
        vec![
            "status.metadata.count=\"2\"".to_string(),
            "status.metadata.lost=\"2\"".to_string(),
            "status.metadata.received=\"0\"".to_string(),
            "status.metadata.rtt_avg=\"1000000\"".to_string(),
            "status.metadata.rtt_max=\"1000000\"".to_string(),
            "status.metadata.rtt_min=\"1000000\"".to_string(),
            "status.metadata.warning_timeout=\"1000000\"".to_string(),
            "status.status=\"red\"".to_string(),
        ]
    );
}

#[test]
fn empty_run_settles_to_sentinel() {
    let processor = default_processor("8.8.8.8", 1);
    let instance = processor.new();
    let report = instance.finalize();
    assert_eq!(report.len(), 8);
    assert_eq!(report[3], "status.metadata.rtt_avg=\"1000000\"");
    assert_eq!(report[4], "status.metadata.rtt_max=\"1000000\"");
    assert_eq!(report[5], "status.metadata.rtt_min=\"1000000\"");
    let status_lines: Vec<&String> = report
        .iter()
        .filter(|l| l.starts_with("status.status="))
        .collect();
    assert_eq!(status_lines.len(), 1);
    // One expected sample, none received: every sample was lost.
    assert_eq!(report[7], "status.status=\"red\"");
}

#[test]
fn red_beats_green_when_both_true() {
    let mut processor = default_processor("8.8.8.8", 1);
    processor.red = "lost == 0".to_string();
    processor.green = "lost == 0".to_string();
    let mut instance = processor.new();
    instance.process_message("64 bytes from 8.8.8.8: icmp_seq=1 ttl=115 time=19.7 ms");
    let report = instance.finalize();
    assert_eq!(report[7], "status.status=\"red\"");
}

#[test]
fn no_rule_true_goes_blank() {
    let mut processor = default_processor("8.8.8.8", 1);
    processor.red = "false".to_string();
    processor.green = "false".to_string();
    let mut instance = processor.new();
    instance.process_message("64 bytes from 8.8.8.8: icmp_seq=1 ttl=115 time=19.7 ms");
    let report = instance.finalize();
    assert_eq!(report[7], "status.status=\"blank\"");
}

#[test]
fn orange_on_slow_reply_without_loss() {
    let mut processor = default_processor("8.8.8.8", 1);
    // 1.5 s reply against a 1 s warning timeout, nothing lost.
    processor.warning_timeout = 1000 * 1000;
    let mut instance = processor.new();
    instance.process_message("64 bytes from 8.8.8.8: icmp_seq=1 ttl=115 time=1500 ms");
    let report = instance.finalize();
    assert_eq!(report[1], "status.metadata.lost=\"0\"");
    assert_eq!(report[4], "status.metadata.rtt_max=\"1500000\"");
    assert_eq!(report[7], "status.status=\"orange\"");
}

#[test]
fn launch_failure_is_synthetic_red() {
    let report = launch_failure_report("could not start probe");
    assert_eq!(
        report,
        vec![
            "status.status=\"red\"".to_string(),
            "status.metadata.error=\"could not start probe\"".to_string(),
        ]
    );
}

#[test]
fn processor_instances_share_no_state() {
    let processor = default_processor("8.8.8.8", 2);
    let mut a = processor.new();
    let b = processor.new();
    a.process_message("64 bytes from 8.8.8.8: icmp_seq=1 ttl=115 time=19.7 ms");
    assert_eq!(a.ping_results.len(), 1);
    assert_eq!(b.ping_results.len(), 0);
}

#[test]
fn test_config_carries_rules() {
    let config = PingMonitorConfig {
        host: "8.8.8.8".to_string(),
        interval: 60 * 1000 * 1000,
        timeout: 5 * 1000 * 1000,
        warning_timeout: default_warning_timeout(),
        count: default_count(),
        red: default_red(),
        green: default_green(),
        blue: default_blue(),
        orange: default_orange(),
        yellow: default_yellow(),
        test: None,
    };
    let test_config = config.test();
    assert_eq!(test_config.command, "echo");
    assert_eq!(test_config.args, vec!["8.8.8.8".to_string()]);
    let processor = test_config.processor.expect("factory expected");
    assert_eq!(processor.host, "8.8.8.8");
    assert_eq!(processor.count, 1);
    assert_eq!(processor.red, "lost == count");
    assert_eq!(processor.green, "lost == 0");
    assert_eq!(processor.blue, "false");
    assert_eq!(
        processor.orange,
        "lost > 0 or (lost == 0 and rtt_max > warning_timeout)"
    );
    assert_eq!(processor.yellow, "false");
}

#[test]
fn non_matching_lines_are_ignored() {
    let processor = default_processor("8.8.8.8", 2);
    let mut instance: SurgePingMonitorMessageProcessorInstance = processor.new();
    let out = instance.process_message("PING 8.8.8.8 (8.8.8.8) 56(84) bytes of data.");
    assert!(out.is_empty());
    assert_eq!(instance.ping_results.len(), 0);
}
