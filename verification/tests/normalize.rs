//! Reading states, charts, health and meshes from documents.

use mando::answers::Answer;
use mando::config::MeshThresholds;
use mando::dict::Dict;
use mando::graph::{normalize_graph_rows, GraphSeries};
use mando::health::normalize_health_rows;
use mando::json::{Double, Integer, Json};
use mando::mesh::{
    grade_link, is_all_cuttable, is_worse_by_lqi, normalize_mesh, pick_worst, read_link, severity,
    MeshLink,
};
use mando::shape::Shape;
use mando::state::{
    classify, classify_str, normalize_enl_state, normalize_mat_onoff, normalize_onoff_value, read_node_id, State,
};
use mando::wire;

/// The document that a text holds.
fn j(text: &str) -> Json {
    wire::parse(text).unwrap()
}

fn dict(entries: &[(&str, &str)]) -> Dict<String> {
    let mut d = Dict::new();
    for (k, v) in entries {
        d.insert(k.to_string(), v.to_string());
    }
    d
}

fn number(d: Double) -> f64 {
    f64::from_bits(d.bits)
}

fn from_json(json: &Json) -> serde_json::Value {
    match json {
        Json::Null => serde_json::Value::Null,
        Json::Bool(b) => serde_json::Value::from(*b),
        Json::Number(n) => match n.integer {
            Integer::Unsigned(u) => serde_json::Value::from(u),
            Integer::Negative(i) => serde_json::Value::from(i),
            Integer::No => serde_json::Value::from(number(n.double)),
        },
        Json::Text(s) => serde_json::Value::from(s.as_str()),
        Json::Array(v) => serde_json::Value::from(v.iter().map(from_json).collect::<Vec<_>>()),
        Json::Object(m) => serde_json::Value::Object(
            m.iter().map(|(k, v)| (k.clone(), from_json(v))).collect(),
        ),
    }
}

/// The answer as a document of `serde_json`.
fn value(shape: &Shape) -> serde_json::Value {
    match shape {
        Shape::Null => serde_json::Value::Null,
        Shape::Flag(b) => serde_json::Value::from(*b),
        Shape::Count(n) => serde_json::Value::from(*n),
        Shape::Signed(n) => serde_json::Value::from(*n),
        Shape::Real(d) => serde_json::Value::from(number(*d)),
        Shape::Text(s) => serde_json::Value::from(s.as_str()),
        Shape::List(v) => serde_json::Value::from(v.iter().map(value).collect::<Vec<_>>()),
        Shape::Record(m) => serde_json::Value::Object(
            m.iter().map(|(k, v)| (k.clone(), value(v))).collect(),
        ),
        Shape::Raw(json) => from_json(json),
    }
}


#[test]
fn onoff_value_maps_bool_only() {
    assert_eq!(normalize_onoff_value(&j(r#"true"#)), State::On);
    assert_eq!(normalize_onoff_value(&j(r#"false"#)), State::Off);
    assert_eq!(normalize_onoff_value(&j(r#"1"#)), State::Unknown);
    assert_eq!(normalize_onoff_value(&j(r#""on""#)), State::Unknown);
    assert_eq!(normalize_onoff_value(&j(r#"null"#)), State::Unknown);
}

#[test]
fn reads_node_id_for_drift_check() {
    assert_eq!(
        read_node_id(&j(r#"{"node_id": 6, "value": true}"#)),
        Some(6)
    );
    assert_eq!(read_node_id(&j(r#"{"value": true}"#)), None);
    assert_eq!(read_node_id(&j(r#"{"node_id": "6"}"#)), None);
}

#[test]
fn string_value() {
    let raw = j(r#"{"properties":[{"name":"open_close_state","value":"open"}]}"#);
    assert_eq!(normalize_enl_state(&raw), State::Open);
    let raw = j(r#"{"properties":[{"name":"open_close_state","value":"closed"}]}"#);
    assert_eq!(normalize_enl_state(&raw), State::Closed);
}

#[test]
fn numeric_edt() {
    let raw = j(r#"{"properties":[{"name":"open_close_state","value":65}]}"#);
    assert_eq!(normalize_enl_state(&raw), State::Open);
    let raw = j(r#"{"properties":[{"name":"open_close_state","value":66}]}"#);
    assert_eq!(normalize_enl_state(&raw), State::Closed);
}

#[test]
fn hex_string() {
    let raw = j(r#"{"properties":[{"name":"open_close_state","value":"0x42"}]}"#);
    assert_eq!(normalize_enl_state(&raw), State::Closed);
}

#[test]
fn picks_named_property_among_many() {
    let raw = j(r#"{"properties":[
        {"name":"operation_status","value":"on"},
        {"name":"open_close_state","value":"open"}
    ]}"#);
    assert_eq!(normalize_enl_state(&raw), State::Open);
}

#[test]
fn real_enl_format() {
    let raw = j(r#"{
        "eoj":"026301","esv":"GetRes","ip":"192.168.1.222",
        "properties":[{"edt_hex":"42","epc":"EA","name":"open_close_state","pdc":1,
                       "value":{"state":"fully_closed"}}]
    }"#);
    assert_eq!(normalize_enl_state(&raw), State::Closed);

    let raw =
        j(r#"{"properties":[{"name":"open_close_state","value":{"state":"fully_open"}}]}"#);
    assert_eq!(normalize_enl_state(&raw), State::Open);
}

#[test]
fn all_five_states() {
    let cases = [
        ("fully_open", State::Open),
        ("fully_closed", State::Closed),
        ("opening", State::Opening),
        ("closing", State::Closing),
        ("stopped_midway", State::Stopped),
    ];
    for (s, want) in cases {
        let raw = j(&format!(r#"{{"properties":[{{"name":"open_close_state","value":{{"state":"{s}"}}}}]}}"#));
        assert_eq!(normalize_enl_state(&raw), want);
    }
}

#[test]
fn numeric_edt_all() {
    for (edt, want) in [
        (0x41, State::Open),
        (0x42, State::Closed),
        (0x43, State::Opening),
        (0x44, State::Closing),
        (0x45, State::Stopped),
    ] {
        let raw = j(&format!(r#"{{"properties":[{{"name":"open_close_state","value":{edt}}}]}}"#));
        assert_eq!(normalize_enl_state(&raw), want);
    }
}

#[test]
fn unknown_on_garbage() {
    assert_eq!(normalize_enl_state(&j(r#"{}"#)), State::Unknown);
    assert_eq!(
        normalize_enl_state(&j(r#"{"properties":[]}"#)),
        State::Unknown
    );
    let raw = j(r#"{"properties":[{"name":"open_close_state","value":"???"}]}"#);
    assert_eq!(normalize_enl_state(&raw), State::Unknown);
}

#[test]
fn casa_envelope_closed() {
    let raw = j(r#"{
        "device": "shutter1", "protocol": "echonet",
        "timestamp": "2026-07-18T21:00:00+09:00",
        "value": {
            "eoj": "026301", "esv": "GetRes", "ip": "192.168.1.222",
            "properties": [{"edt_hex":"42","epc":"EA","name":"open_close_state",
                            "pdc":1,"value":{"state":"fully_closed"}}]
        }
    }"#);
    assert_eq!(normalize_enl_state(&raw), State::Closed);
}

#[test]
fn casa_envelope_all_five_states() {
    let cases = [
        ("fully_open", State::Open),
        ("fully_closed", State::Closed),
        ("opening", State::Opening),
        ("closing", State::Closing),
        ("stopped_midway", State::Stopped),
    ];
    for (s, want) in cases {
        let raw = j(&format!(r#"{{
            "device": "shutter1", "protocol": "echonet",
            "value": {{"properties":[{{"name":"open_close_state","value":{{"state":"{s}"}}}}]}}
        }}"#));
        assert_eq!(normalize_enl_state(&raw), want);
    }
}

#[test]
fn casa_envelope_unknown_property_is_unknown() {
    let raw = j(r#"{
        "device": "sensor", "protocol": "echonet",
        "value": {"eoj":"001101","esv":"GetRes",
                  "properties":[{"epc":"E0","name":"illuminance","value":{"illuminance":"bright"}}]}
    }"#);
    assert_eq!(normalize_enl_state(&raw), State::Unknown);
}

#[test]
fn casa_envelope_value_without_properties_is_unknown() {
    let raw = j(r#"{
        "device": "porch_light", "protocol": "echonet",
        "value": {"power": "on"}
    }"#);
    assert_eq!(normalize_enl_state(&raw), State::Unknown);
}

#[test]
fn switch_on_off_object() {
    let raw = j(r#"{"properties":[
        {"epc":"80","name":"operation_status","value":{"state":"on"}}]}"#);
    assert_eq!(normalize_enl_state(&raw), State::On);
    let raw = j(r#"{"properties":[
        {"epc":"80","name":"operation_status","value":{"state":"off"}}]}"#);
    assert_eq!(normalize_enl_state(&raw), State::Off);
}

#[test]
fn switch_on_off_string() {
    let raw = j(r#"{"properties":[{"name":"operation_status","value":"on"}]}"#);
    assert_eq!(normalize_enl_state(&raw), State::On);
    let raw = j(r#"{"properties":[{"name":"operation_status","value":"off"}]}"#);
    assert_eq!(normalize_enl_state(&raw), State::Off);
    let raw = j(r#"{"properties":[{"name":"operation_status","value":"0x30"}]}"#);
    assert_eq!(normalize_enl_state(&raw), State::On);
    let raw = j(r#"{"properties":[{"name":"operation_status","value":"31"}]}"#);
    assert_eq!(normalize_enl_state(&raw), State::Off);
}

#[test]
fn switch_on_off_numeric_edt() {
    let raw = j(r#"{"properties":[{"name":"operation_status","value":48}]}"#);
    assert_eq!(normalize_enl_state(&raw), State::On);
    let raw = j(r#"{"properties":[{"name":"operation_status","value":49}]}"#);
    assert_eq!(normalize_enl_state(&raw), State::Off);
}

#[test]
fn switch_on_off_casa_envelope() {
    let raw = j(r#"{
        "device": "fan", "protocol": "echonet",
        "value": {"properties":[
            {"name":"operation_status","value":{"state":"on"}}]}
    }"#);
    assert_eq!(normalize_enl_state(&raw), State::On);
}

#[test]
fn switch_unknown_on_garbage_value() {
    let raw = j(r#"{"properties":[{"name":"operation_status","value":"heating"}]}"#);
    assert_eq!(normalize_enl_state(&raw), State::Unknown);
}

#[test]
fn switch_casa_power_envelope() {
    let raw = j(r#"{
        "device": "kitchen_light", "protocol": "echonet",
        "value": {"eoj":"029108","esv":"GetRes","ip":"192.168.1.22",
            "properties":[{"edt_hex":"31","epc":"80","name":"power","pdc":1,
                           "value":{"power":"off"}}]}
    }"#);
    assert_eq!(normalize_enl_state(&raw), State::Off);

    let raw = j(r#"{
        "device": "kitchen_light", "protocol": "echonet",
        "value": {"properties":[{"epc":"80","name":"power","value":{"power":"on"}}]}
    }"#);
    assert_eq!(normalize_enl_state(&raw), State::On);
}

#[test]
fn mat_onoff_real_format() {
    let raw = j(r#"{
        "timestamp": "2026-07-09T12:00:00+09:00",
        "node_id": 5, "endpoint": 1,
        "cluster": "onoff", "attribute": "on-off",
        "value": true
    }"#);
    assert_eq!(normalize_mat_onoff(&raw), State::On);
    let raw = j(r#"{"value": false}"#);
    assert_eq!(normalize_mat_onoff(&raw), State::Off);
}

#[test]
fn mat_onoff_garbage_is_unknown() {
    assert_eq!(normalize_mat_onoff(&j(r#"{}"#)), State::Unknown);
    assert_eq!(normalize_mat_onoff(&j(r#"{"value": "on"}"#)), State::Unknown);
    assert_eq!(normalize_mat_onoff(&j(r#"{"value": 1}"#)), State::Unknown);
    assert_eq!(normalize_mat_onoff(&j(r#"null"#)), State::Unknown);
}

#[test]
fn on_off_serialize_snake_case() {
    assert_eq!(serde_json::to_string(State::On.word()).unwrap(), "\"on\"");
    assert_eq!(serde_json::to_string(State::Off.word()).unwrap(), "\"off\"");
}

#[test]
fn graph_rows_single_series_gets_default_label() {
    let rows = [
        j(r#"{"ts": "2026-07-15T10:00:00+09:00", "value": 100.0}"#),
        j(r#"{"ts": "2026-07-15T10:05:00+09:00", "value": 200.0}"#),
    ];
    let s = normalize_graph_rows(&rows, "太陽光発電", None).series;
    assert_eq!(s.len(), 1);
    assert_eq!(s[0].label, "太陽光発電");
    assert_eq!(s[0].points.len(), 2);
    assert_eq!(number(s[0].points[0].1), 100.0);
}

#[test]
fn graph_rows_grouped_by_series_in_first_appearance_order() {
    let rows = [
        j(r#"{"ts": "t1", "series": "書斎", "value": 800.0}"#),
        j(r#"{"ts": "t1", "series": "リビング", "value": 600.0}"#),
        j(r#"{"ts": "t2", "series": "書斎", "value": 820.0}"#),
    ];
    let s = normalize_graph_rows(&rows, "CO2", None).series;
    assert_eq!(s.len(), 2);
    assert_eq!(s[0].label, "書斎");
    assert_eq!(s[0].points.len(), 2);
    assert_eq!(s[1].label, "リビング");
    assert_eq!(s[1].points.len(), 1);
}

#[test]
fn graph_rows_sorted_by_ts_ascending() {
    let rows = [
        j(r#"{"ts": "2026-07-15T10:05:00+09:00", "value": 2.0}"#),
        j(r#"{"ts": "2026-07-15T10:00:00+09:00", "value": 1.0}"#),
    ];
    let s = normalize_graph_rows(&rows, "x", None).series;
    assert_eq!(number(s[0].points[0].1), 1.0);
    assert_eq!(number(s[0].points[1].1), 2.0);
}

#[test]
fn graph_rows_invalid_rows_dropped() {
    let rows = [
        j(r#"{"ts": "t1", "value": "not-a-number"}"#),
        j(r#"{"value": 1.0}"#),
        j(r#"{"ts": "t2"}"#),
        j(r#""garbage""#),
        j(r#"{"ts": "t3", "value": 3.0}"#),
    ];
    let s = normalize_graph_rows(&rows, "x", None).series;
    assert_eq!(s.len(), 1);
    assert_eq!(s[0].points.len(), 1);
    assert_eq!(s[0].points[0].0, "t3");
    assert_eq!(number(s[0].points[0].1), 3.0);
}

#[test]
fn graph_rows_empty_is_empty() {
    assert!(normalize_graph_rows(&[], "x", None).series.is_empty());
}

#[test]
fn graph_rows_series_labels_mapped() {
    let m = dict(&[("cpu_used_pct", "CPU (%)")]);
    let rows = [
        j(r#"{"ts": "t1", "series": "cpu_used_pct", "value": 12.0}"#),
        j(r#"{"ts": "t1", "series": "mem_used_pct", "value": 45.0}"#),
    ];
    let s = normalize_graph_rows(&rows, "jarvis", Some(&m)).series;
    assert_eq!(s.len(), 2);
    assert_eq!(s[0].label, "CPU (%)");
    assert_eq!(s[1].label, "mem_used_pct");
}

#[test]
fn graph_rows_summary_extracted_and_excluded() {
    let rows = [
        j(r#"{"ts": "2026-07-15T10:00:00+09:00", "value": 100.0}"#),
        j(r#"{"ts": "2026-07-15T10:05:00+09:00", "value": 200.0}"#),
        j(r#"{"ts": "2026-07-15T23:59:00+09:00", "series": "@summary", "value": 5.6}"#),
    ];
    let n = normalize_graph_rows(&rows, "太陽光発電", None);
    assert_eq!(n.summary.map(number), Some(5.6));
    assert_eq!(n.series.len(), 1);
    assert_eq!(n.series[0].points.len(), 2);
}

#[test]
fn graph_rows_summary_takes_latest_ts() {
    let rows = [
        j(r#"{"ts": "t1", "series": "@summary", "value": 1.0}"#),
        j(r#"{"ts": "t3", "series": "@summary", "value": 3.0}"#),
        j(r#"{"ts": "t2", "series": "@summary", "value": 2.0}"#),
    ];
    let n = normalize_graph_rows(&rows, "x", None);
    assert_eq!(n.summary.map(number), Some(3.0));
    assert!(n.series.is_empty());
}

#[test]
fn graph_rows_no_summary_is_none() {
    let rows = [j(r#"{"ts": "t1", "value": 1.0}"#)];
    let n = normalize_graph_rows(&rows, "x", None);
    assert_eq!(n.summary, None);
    assert_eq!(n.series.len(), 1);
}

#[test]
fn graph_series_serializes_points_as_pairs() {
    let s = GraphSeries {
        label: "発電".into(),
        points: vec![("t1".into(), Double { bits: 1.5f64.to_bits() })],
    };
    assert_eq!(
        value(&s.shape()).to_string(),
        r#"{"label":"発電","points":[["t1",1.5]]}"#
    );
}

#[test]
fn health_rows_normalized_with_labels() {
    let m = dict(&[("disk_used_pct", "ディスク")]);
    let rows = [
        j(r#"{"metric": "disk_used_pct", "value": 83.2, "ts": "t1", "level": "warn"}"#),
        j(r#"{"metric": "cpu_temp_c", "value": 55.0, "ts": "t1", "level": "ok"}"#),
    ];
    let r = normalize_health_rows(&rows, Some(&m));
    assert_eq!(r.worst, "warn");
    assert_eq!(r.items.len(), 2);
    assert_eq!(r.items[0].label, "ディスク");
    assert_eq!(r.items[0].value.map(number), Some(83.2));
    assert_eq!(r.items[0].level, "warn");
    assert_eq!(r.items[1].label, "cpu_temp_c");
}

#[test]
fn health_worst_ranking_crit_over_stale_over_warn() {
    let rows = [
        j(r#"{"metric": "a", "level": "warn", "value": 1.0, "ts": "t"}"#),
        j(r#"{"metric": "b", "level": "stale"}"#),
    ];
    assert_eq!(normalize_health_rows(&rows, None).worst, "stale");
    let rows = [
        j(r#"{"metric": "a", "level": "stale"}"#),
        j(r#"{"metric": "b", "level": "crit", "value": 99.0, "ts": "t"}"#),
    ];
    assert_eq!(normalize_health_rows(&rows, None).worst, "crit");
    let rows = [j(r#"{"metric": "a", "level": "ok", "value": 1.0, "ts": "t"}"#)];
    assert_eq!(normalize_health_rows(&rows, None).worst, "ok");
}

#[test]
fn health_stale_row_has_no_value_ts() {
    let rows = [j(r#"{"metric": "mem_used_pct", "level": "stale"}"#)];
    let r = normalize_health_rows(&rows, None);
    assert_eq!(r.items[0].value, None);
    assert_eq!(r.items[0].ts, None);
    assert_eq!(r.items[0].level, "stale");
}

#[test]
fn health_invalid_rows_dropped() {
    let rows = [
        j(r#"{"metric": "a", "level": "banana"}"#),
        j(r#"{"level": "ok"}"#),
        j(r#""garbage""#),
        j(r#"{"metric": "d", "level": "ok", "value": 1.0, "ts": "t"}"#),
    ];
    let r = normalize_health_rows(&rows, None);
    assert_eq!(r.items.len(), 1);
    assert_eq!(r.items[0].label, "d");
}

#[test]
fn health_empty_is_stale() {
    let r = normalize_health_rows(&[], None);
    assert!(r.items.is_empty());
    assert_eq!(r.worst, "stale");
    let rows = [j(r#"{"metric": "a", "level": "banana"}"#)];
    assert_eq!(normalize_health_rows(&rows, None).worst, "stale");
}

#[test]
fn health_item_serializes_without_none_fields() {
    let r = normalize_health_rows(&[j(r#"{"metric": "a", "level": "stale"}"#)], None);
    assert_eq!(
        value(&r.items[0].shape()).to_string(),
        r#"{"label":"a","level":"stale"}"#
    );
}

fn th() -> MeshThresholds {
    MeshThresholds::default()
}

fn sample() -> String {
    r#"{
      "timestamp": "2026-07-23T21:14:02+09:00",
      "network": {
        "name": "test-thread", "channel": 15,
        "partition_ids": [1581832881], "leader_router_id": 38
      },
      "nodes": [
        {"id": "ext:0011223344556677", "ext_address": "0011223344556677",
         "rloc16": "0x9800", "router_id": 38, "role": "leader"},
        {"id": "node:5", "node_id": 5, "alias": "desk_light",
         "role": "router", "probed": true},
        {"id": "ext:8899AABBCCDDEEFF", "ext_address": "8899AABBCCDDEEFF",
         "node_id": 7, "alias": "hall_light", "rloc16": "0x6c00",
         "router_id": 27, "role": "router", "probed": true},
        {"id": "ext:AABBCCDDEEFF0011", "ext_address": "AABBCCDDEEFF0011",
         "rloc16": "0x7c00", "router_id": 31, "role": "router",
         "label": "otbr-br"},
        {"id": "node:15", "node_id": 15, "role": "unknown", "probed": false,
         "probe_error": {"kind": "timeout", "detail": "no SRV+AAAA answer"}}
      ],
      "edges": [
        {"a": "node:5", "b": "ext:8899AABBCCDDEEFF",
         "a_sees_b": {"lqi": 3, "avg_rssi": -60, "last_rssi": -58,
                      "frame_error_rate": 0, "age": 12},
         "b_sees_a": {"lqi": 3, "avg_rssi": -62, "last_rssi": -61,
                      "frame_error_rate": 1, "age": 8}},
        {"a": "node:5", "b": "ext:AABBCCDDEEFF0011",
         "a_sees_b": null, "b_sees_a": null,
         "route": {"lqi_in": 3, "lqi_out": 3, "path_cost": 1}}
      ]
    }"#
    .to_string()
}

#[test]
fn mesh_network_and_counts() {
    let v = normalize_mesh(&j(&sample()), &th(), None);
    assert_eq!(v.network.name.as_deref(), Some("test-thread"));
    assert_eq!(v.network.channel, Some(15));
    assert_eq!(v.network.leader_router_id, Some(38));
    assert!(!v.network.split);
    assert_eq!(v.fetched_at.as_deref(), Some("2026-07-23T21:14:02+09:00"));
    assert_eq!(v.nodes.len(), 5);
    assert_eq!(v.edges.len(), 2);
    assert_eq!(v.unidentified_count, 1);
}

#[test]
fn mesh_split_when_multiple_partitions() {
    let raw = j(&sample().replace("[1581832881]", "[1, 2]"));
    assert!(normalize_mesh(&raw, &th(), None).network.split);
}

#[test]
fn mesh_node_kinds_and_names() {
    let v = normalize_mesh(&j(&sample()), &th(), None);
    let by = |id: &str| v.nodes.iter().find(|n| n.id == id).unwrap();

    let leader = by("ext:0011223344556677");
    assert_eq!(leader.kind, "anonymous");
    assert_eq!(leader.name, "0011");
    assert!(leader.is_leader);
    assert_eq!(leader.probed, None);

    let ours = by("node:5");
    assert_eq!(ours.kind, "ours");
    assert_eq!(ours.name, "desk_light");
    assert_eq!(ours.role, "router");
    assert_eq!(ours.probed, Some(true));
    assert!(!ours.is_leader);

    let named = by("ext:AABBCCDDEEFF0011");
    assert_eq!(named.kind, "named");
    assert_eq!(named.name, "otbr-br");

    let failed = by("node:15");
    assert_eq!(failed.kind, "anonymous");
    assert_eq!(failed.probed, Some(false));
    assert_eq!(failed.error_kind.as_deref(), Some("timeout"));
}

#[test]
fn mesh_labels_replace_alias() {
    let labels = dict(&[("desk_light", "デスクライト")]);
    let v = normalize_mesh(&j(&sample()), &th(), Some(&labels));
    let n = v.nodes.iter().find(|n| n.id == "node:5").unwrap();
    assert_eq!(n.name, "デスクライト");
}

#[test]
fn mesh_route_only_edge() {
    let v = normalize_mesh(&j(&sample()), &th(), None);
    let e = v.edges.iter().find(|e| e.b == "ext:AABBCCDDEEFF0011").unwrap();
    assert_eq!(e.grade, "route_only");
    assert_eq!(e.lqi, None);
    assert_eq!(e.rssi, None);
    assert_eq!(e.fer, None);
}

#[test]
fn mesh_grade_by_lqi() {
    for (lqi, want) in [(3u8, "good"), (2, "fair"), (1, "weak"), (0, "bad")] {
        let raw = j(&format!(r#"{{
          "network": {{"partition_ids": []}},
          "nodes": [{{"id": "a"}}, {{"id": "b"}}],
          "edges": [{{"a": "a", "b": "b",
                     "a_sees_b": {{"lqi": {lqi}, "avg_rssi": -70, "frame_error_rate": 0}},
                     "b_sees_a": null}}]
        }}"#));
        let v = normalize_mesh(&raw, &th(), None);
        assert_eq!(v.edges[0].grade, want, "lqi {lqi}");
    }
}

#[test]
fn mesh_grade_fer_only_worsens() {
    let mk = |lqi: u8, fer: u8| {
        j(&format!(r#"{{
          "network": {{"partition_ids": []}},
          "nodes": [{{"id": "a"}}, {{"id": "b"}}],
          "edges": [{{"a": "a", "b": "b",
                     "a_sees_b": {{"lqi": {lqi}, "avg_rssi": -70, "frame_error_rate": {fer}}},
                     "b_sees_a": null}}]
        }}"#))
    };
    assert_eq!(normalize_mesh(&mk(3, 88), &th(), None).edges[0].grade, "weak");
    assert_eq!(normalize_mesh(&mk(2, 30), &th(), None).edges[0].grade, "weak");
    assert_eq!(normalize_mesh(&mk(0, 88), &th(), None).edges[0].grade, "bad");
    assert_eq!(normalize_mesh(&mk(3, 29), &th(), None).edges[0].grade, "good");
}

#[test]
fn mesh_takes_worse_view() {
    let raw = j(r#"{
      "network": {"partition_ids": []},
      "nodes": [{"id": "a"}, {"id": "b"}],
      "edges": [{"a": "a", "b": "b",
                 "a_sees_b": {"lqi": 3, "avg_rssi": -55, "frame_error_rate": 0},
                 "b_sees_a": {"lqi": 1, "avg_rssi": -94, "frame_error_rate": 5}}]
    }"#);
    let e = &normalize_mesh(&raw, &th(), None).edges[0];
    assert_eq!(e.grade, "weak");
    assert_eq!(e.lqi, Some(1));
    assert_eq!(e.rssi, Some(-94));
    assert_eq!(e.fer, Some(5));

    let tie = j(r#"{
      "network": {"partition_ids": []},
      "nodes": [{"id": "a"}, {"id": "b"}],
      "edges": [{"a": "a", "b": "b",
                 "a_sees_b": {"lqi": 2, "avg_rssi": -70, "frame_error_rate": 4},
                 "b_sees_a": {"lqi": 2, "avg_rssi": -72, "frame_error_rate": 40}}]
    }"#);
    let e = &normalize_mesh(&tie, &th(), None).edges[0];
    assert_eq!(e.fer, Some(40));
    assert_eq!(e.grade, "weak");
}

#[test]
fn mesh_thresholds_move_the_boundary() {
    let raw = j(r#"{
      "network": {"partition_ids": []},
      "nodes": [{"id": "a"}, {"id": "b"}],
      "edges": [{"a": "a", "b": "b",
                 "a_sees_b": {"lqi": 2, "avg_rssi": -70, "frame_error_rate": 0},
                 "b_sees_a": null}]
    }"#);
    assert_eq!(normalize_mesh(&raw, &th(), None).edges[0].grade, "fair");
    let strict = MeshThresholds { lqi_fair: 3, lqi_weak: 2, fer_weak: 30 };
    assert_eq!(normalize_mesh(&raw, &strict, None).edges[0].grade, "weak");
}

#[test]
fn mesh_drops_edges_with_unknown_endpoint() {
    let raw = j(r#"{
      "network": {"partition_ids": []},
      "nodes": [{"id": "a"}],
      "edges": [{"a": "a", "b": "ghost", "a_sees_b": null, "b_sees_a": null}]
    }"#);
    assert!(normalize_mesh(&raw, &th(), None).edges.is_empty());
}

#[test]
fn mesh_link_lqi_only_no_zero_fill() {
    let raw = j(r#"{
      "network": {"partition_ids": []},
      "nodes": [{"id": "a"}, {"id": "b"}],
      "edges": [{"a": "a", "b": "b",
                 "a_sees_b": {"lqi": 1},
                 "b_sees_a": null}]
    }"#);
    let e = &normalize_mesh(&raw, &th(), None).edges[0];
    assert_eq!(e.grade, "weak");
    assert_eq!(e.lqi, Some(1));
    assert_eq!(e.rssi, None);
    assert_eq!(e.fer, None);
    let s = value(&e.shape()).to_string();
    assert!(!s.contains("\"rssi\""));
    assert!(!s.contains("\"fer\""));
}

#[test]
fn mesh_link_fer_only_above_threshold_is_weak() {
    let raw = j(r#"{
      "network": {"partition_ids": []},
      "nodes": [{"id": "a"}, {"id": "b"}],
      "edges": [{"a": "a", "b": "b",
                 "a_sees_b": {"frame_error_rate": 90},
                 "b_sees_a": null}]
    }"#);
    let e = &normalize_mesh(&raw, &th(), None).edges[0];
    assert_eq!(e.grade, "weak");
    assert_eq!(e.lqi, None);
    assert_eq!(e.fer, Some(90));
}

#[test]
fn mesh_link_fer_only_below_threshold_is_route_only() {
    let raw = j(r#"{
      "network": {"partition_ids": []},
      "nodes": [{"id": "a"}, {"id": "b"}],
      "edges": [{"a": "a", "b": "b",
                 "a_sees_b": {"frame_error_rate": 5},
                 "b_sees_a": null}]
    }"#);
    let e = &normalize_mesh(&raw, &th(), None).edges[0];
    assert_eq!(e.grade, "route_only");
    assert_eq!(e.lqi, None);
    assert_eq!(e.fer, Some(5));
}

#[test]
fn mesh_link_empty_object_is_route_only() {
    let raw = j(r#"{
      "network": {"partition_ids": []},
      "nodes": [{"id": "a"}, {"id": "b"}],
      "edges": [{"a": "a", "b": "b", "a_sees_b": {}, "b_sees_a": null}]
    }"#);
    let e = &normalize_mesh(&raw, &th(), None).edges[0];
    assert_eq!(e.grade, "route_only");
    assert_eq!(e.lqi, None);
    assert_eq!(e.rssi, None);
    assert_eq!(e.fer, None);
}

#[test]
fn mesh_tie_break_prefers_view_with_fer() {
    let raw = j(r#"{
      "network": {"partition_ids": []},
      "nodes": [{"id": "a"}, {"id": "b"}],
      "edges": [{"a": "a", "b": "b",
                 "a_sees_b": {"lqi": 2},
                 "b_sees_a": {"lqi": 2, "frame_error_rate": 5}}]
    }"#);
    let e = &normalize_mesh(&raw, &th(), None).edges[0];
    assert_eq!(e.lqi, Some(2));
    assert_eq!(e.fer, Some(5));
}

#[test]
fn mesh_tie_break_prefers_view_with_fer_mirrored_order() {
    let raw = j(r#"{
      "network": {"partition_ids": []},
      "nodes": [{"id": "a"}, {"id": "b"}],
      "edges": [{"a": "a", "b": "b",
                 "a_sees_b": {"lqi": 2, "frame_error_rate": 5},
                 "b_sees_a": {"lqi": 2}}]
    }"#);
    let e = &normalize_mesh(&raw, &th(), None).edges[0];
    assert_eq!(e.lqi, Some(2));
    assert_eq!(e.fer, Some(5));
}

#[test]
fn mesh_partial_views_lqi_view_wins_without_merging_other_views_fer() {
    let raw = j(r#"{
      "network": {"partition_ids": []},
      "nodes": [{"id": "a"}, {"id": "b"}],
      "edges": [{"a": "a", "b": "b",
                 "a_sees_b": {"lqi": 3},
                 "b_sees_a": {"frame_error_rate": 90}}]
    }"#);
    let e = &normalize_mesh(&raw, &th(), None).edges[0];
    assert_eq!(e.grade, "good");
    assert_eq!(e.lqi, Some(3));
    assert_eq!(e.fer, None);
}

#[test]
fn mesh_empty_graph() {
    let raw = j(r#"{"network": {"partition_ids": []}, "nodes": [], "edges": []}"#);
    let v = normalize_mesh(&raw, &th(), None);
    assert!(v.nodes.is_empty());
    assert!(v.edges.is_empty());
    assert!(!v.network.split);
    assert_eq!(v.network.name, None);
    assert_eq!(v.unidentified_count, 0);
    assert_eq!(v.fetched_at, None);
}

#[test]
fn points_of_the_same_time_keep_their_order() {
    let rows = [
        j(r#"{"ts": "t2", "value": 1}"#),
        j(r#"{"ts": "t1", "value": 2}"#),
        j(r#"{"ts": "t2", "value": 3}"#),
        j(r#"{"ts": "t1", "value": 4}"#),
        j(r#"{"ts": "t0", "value": -5}"#),
    ];
    let s = normalize_graph_rows(&rows, "x", None).series;
    let values: Vec<f64> = s[0].points.iter().map(|p| number(p.1)).collect();
    assert_eq!(values, vec![-5.0, 2.0, 4.0, 1.0, 3.0]);
}

#[test]
fn summaries_of_the_same_time_keep_the_first() {
    let rows = [
        j(r#"{"ts": "t1", "series": "@summary", "value": 1.0}"#),
        j(r#"{"ts": "t1", "series": "@summary", "value": 2.0}"#),
        j(r#"{"ts": "t2", "series": "@summary"}"#),
    ];
    let n = normalize_graph_rows(&rows, "x", None);
    assert_eq!(n.summary.map(number), Some(1.0));
}

#[test]
fn series_that_share_a_display_name_are_one() {
    let m = dict(&[("a", "A"), ("x", "A")]);
    let rows = [
        j(r#"{"ts": "t2", "series": "a", "value": 1}"#),
        j(r#"{"ts": "t1", "value": 2}"#),
    ];
    let s = normalize_graph_rows(&rows, "x", Some(&m)).series;
    assert_eq!(s.len(), 1);
    assert_eq!(s[0].label, "A");
    assert_eq!(s[0].points.len(), 2);
    assert_eq!(s[0].points[0].0, "t1");
}

#[test]
fn words_for_states() {
    for (state, word) in [
        (State::Open, "open"),
        (State::Closed, "closed"),
        (State::Opening, "opening"),
        (State::Closing, "closing"),
        (State::Stopped, "stopped"),
        (State::On, "on"),
        (State::Off, "off"),
        (State::Unknown, "unknown"),
    ] {
        assert_eq!(state.word(), word);
    }
}

#[test]
fn words_of_devices_are_read_loosely() {
    assert_eq!(classify_str("  Fully_Open\t"), State::Open);
    assert_eq!(classify_str("CLOSE"), State::Closed);
    assert_eq!(classify_str("45"), State::Stopped);
    assert_eq!(classify_str("fully open"), State::Unknown);
    assert_eq!(classify(&j(r#"{"power": {"state": 49}}"#)), State::Off);
    assert_eq!(classify(&j(r#"{"state": null, "power": "on"}"#)), State::Unknown);
    assert_eq!(classify(&j("65.0")), State::Unknown);
}

#[test]
fn grades_from_good_to_bad() {
    assert_eq!(severity("good"), 0);
    assert_eq!(severity("fair"), 1);
    assert_eq!(severity("weak"), 2);
    assert_eq!(severity("bad"), 3);
    assert_eq!(severity("route_only"), 0);
}

#[test]
fn worst_measurement_is_picked() {
    let link = |lqi: Option<u8>, fer: Option<u8>| MeshLink { lqi, rssi: None, fer };
    assert_eq!(pick_worst(&[]), None);
    assert_eq!(pick_worst(&[link(None, None)]), None);
    assert_eq!(
        pick_worst(&[link(None, Some(5)), link(None, Some(9)), link(None, Some(9))]),
        Some(link(None, Some(9)))
    );
    assert_eq!(
        pick_worst(&[link(Some(3), None), link(None, Some(90)), link(Some(1), None)]),
        Some(link(Some(1), None))
    );
    assert!(is_worse_by_lqi(link(Some(1), None), link(Some(2), Some(99))));
    assert!(!is_worse_by_lqi(link(Some(2), None), link(Some(2), None)));
    assert!(is_worse_by_lqi(link(None, None), link(Some(0), None)));
}

#[test]
fn measurements_are_read() {
    let l = read_link(&j(r#"{"lqi": 258, "avg_rssi": -70, "frame_error_rate": 3}"#)).unwrap();
    assert_eq!(l.lqi, Some(2));
    assert_eq!(l.rssi, Some(-70));
    assert_eq!(l.fer, Some(3));
    assert!(read_link(&j("null")).is_none());
    let l = read_link(&j(r#"{"lqi": -1}"#)).unwrap();
    assert_eq!(l.lqi, None);
    assert_eq!(grade_link(l, &th()), "route_only");
}

#[test]
fn addresses_that_cannot_be_cut_are_noticed() {
    assert!(is_all_cuttable(&j("{}")));
    assert!(is_all_cuttable(&j(r#"{"nodes":[{"id":"x","ext_address":"0011"}]}"#)));
    assert!(!is_all_cuttable(&j(r#"{"nodes":[{"id":"x","ext_address":"abcあ"}]}"#)));
    assert!(is_all_cuttable(&j(
        r#"{"nodes":[{"id":"x","label":"l","ext_address":"abcあ"},{"ext_address":"abcあ"}]}"#
    )));
}
