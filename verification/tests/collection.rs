use mackerel_plugin_ntp::collector::get_ntp_info;
use mackerel_plugin_ntp::decimal::Decimal;
use mackerel_plugin_ntp::error::NtpError;
use mackerel_plugin_ntp::plugin::{GraphUnit, NtpPlugin};

fn lines(v: &[&str]) -> Vec<String> {
    v.iter().map(|s| s.to_string()).collect()
}

const HEADER_1: &str = "     remote           refid      st t when poll reach   delay   offset  jitter";
const HEADER_2: &str = "==============================================================================";
const PLAIN_ROW: &str = " 17.253.68.253   .GPSs.           1 u  35m  512   16   51.191  831.748   8.311";
const MARKER_ROW: &str = "*2001:4860:4806: .GOOG.           1 u   29   64   377  86.892   -6.196   0.001";

#[test]
fn marker_line_is_selected_over_earlier_lines() {
    let input = lines(&[HEADER_1, HEADER_2, PLAIN_ROW, MARKER_ROW]);
    let info = get_ntp_info(&input).unwrap();
    // the values of the marker row, not of the first row
    assert_eq!(info.when.interval, 29);
    assert_eq!(info.poll.interval, 64);
    assert_eq!(info.reach.reach, 8);
}

#[test]
fn first_line_is_selected_without_marker() {
    let input = lines(&[HEADER_1, HEADER_2, PLAIN_ROW, PLAIN_ROW]);
    let info = get_ntp_info(&input).unwrap();
    assert_eq!(info.when.interval, 2100);
    assert_eq!(info.poll.interval, 512);
    assert_eq!(info.reach.reach, 3);
}

#[test]
fn no_data_lines_reports_no_peer_information() {
    assert_eq!(get_ntp_info(&lines(&[])), Err(NtpError::NoPeerInfo));
    assert_eq!(get_ntp_info(&lines(&[HEADER_1])), Err(NtpError::NoPeerInfo));
    assert_eq!(get_ntp_info(&lines(&[HEADER_1, HEADER_2])), Err(NtpError::NoPeerInfo));
}

#[test]
fn header_lines_are_skipped_unconditionally() {
    // a marker in the header rows does not count as a peer row
    let input = lines(&[MARKER_ROW, MARKER_ROW]);
    assert_eq!(get_ntp_info(&input), Err(NtpError::NoPeerInfo));
}

#[test]
fn parse_errors_propagate_verbatim() {
    let input = lines(&[HEADER_1, HEADER_2, "not a peer row"]);
    assert_eq!(get_ntp_info(&input), Err(NtpError::BadWhen));
    let plugin = NtpPlugin {};
    assert_eq!(plugin.fetch_metrics(&input), Err(NtpError::BadWhen));
}

#[test]
fn fetch_metrics_produces_exactly_the_six_keys() {
    let plugin = NtpPlugin {};
    let input = lines(&[HEADER_1, HEADER_2, MARKER_ROW]);
    let ms = plugin.fetch_metrics(&input).unwrap();
    let keys: Vec<&str> = ms.entries.iter().map(|e| e.0.as_str()).collect();
    assert_eq!(
        keys,
        vec!["poll.poll", "poll.when", "reach.reach", "delay.delay", "offset.offset", "jitter.jitter"]
    );
}

#[test]
fn fetch_metrics_maps_parsed_values() {
    let plugin = NtpPlugin {};
    let input = lines(&[HEADER_1, HEADER_2, MARKER_ROW]);
    let ms = plugin.fetch_metrics(&input).unwrap();
    assert_eq!(ms.entries[0].1, Decimal { negative: false, mantissa: 64, scale: 0 });
    assert_eq!(ms.entries[1].1, Decimal { negative: false, mantissa: 29, scale: 0 });
    assert_eq!(ms.entries[2].1, Decimal { negative: false, mantissa: 8, scale: 0 });
    assert_eq!(ms.entries[3].1, Decimal { negative: false, mantissa: 86892, scale: 3 });
    assert_eq!(ms.entries[5].1, Decimal { negative: false, mantissa: 1, scale: 3 });
}

#[test]
fn offset_metric_discards_the_sign() {
    let plugin = NtpPlugin {};
    let input = lines(&[HEADER_1, HEADER_2, MARKER_ROW]);
    let ms = plugin.fetch_metrics(&input).unwrap();
    // the row's offset is -6.196; the metric reports 6.196
    assert_eq!(ms.entries[4].0, "offset.offset".to_string());
    assert_eq!(ms.entries[4].1, Decimal { negative: false, mantissa: 6196, scale: 3 });
}

#[test]
fn graph_definitions_are_static() {
    let plugin = NtpPlugin {};
    let graphs = plugin.graph_definition();
    assert_eq!(graphs.len(), 5);
    let names: Vec<&str> = graphs.iter().map(|g| g.name.as_str()).collect();
    assert_eq!(names, vec!["poll", "reach", "delay", "offset", "jitter"]);
    assert_eq!(graphs[0].label, "NTP poll".to_string());
    assert_eq!(graphs[0].unit, GraphUnit::Integer);
    assert_eq!(graphs[0].metrics.len(), 2);
    assert_eq!(graphs[0].metrics[0].name, "poll".to_string());
    assert_eq!(graphs[0].metrics[0].label, "poll (sec)".to_string());
    assert_eq!(graphs[0].metrics[1].name, "when".to_string());
    assert_eq!(graphs[1].unit, GraphUnit::Integer);
    assert_eq!(graphs[1].metrics.len(), 1);
    assert_eq!(graphs[1].metrics[0].label, "reach".to_string());
    assert_eq!(graphs[2].unit, GraphUnit::Float);
    assert_eq!(graphs[2].metrics[0].label, "delay (msec)".to_string());
    assert_eq!(graphs[3].metrics[0].label, "offset (msec)".to_string());
    assert_eq!(graphs[4].metrics[0].label, "jitter (msec)".to_string());
}

#[test]
fn every_metric_key_is_declared_by_a_graph() {
    let plugin = NtpPlugin {};
    let input = lines(&[HEADER_1, HEADER_2, MARKER_ROW]);
    let ms = plugin.fetch_metrics(&input).unwrap();
    let graphs = plugin.graph_definition();
    for entry in &ms.entries {
        let found = graphs.iter().any(|g| {
            g.metrics.iter().any(|m| format!("{}.{}", g.name, m.name) == entry.0)
        });
        assert!(found, "undeclared metric key: {}", entry.0);
    }
}

#[test]
fn metric_key_prefix_is_fixed() {
    let plugin = NtpPlugin {};
    assert_eq!(plugin.metric_key_prefix(), "ntp".to_string());
}
