//! Answering requests, and the lights that are pushed.

use mando::answers::{list_shape, Answer};
use mando::catalog::{list_devices, list_graphs, list_groups};
use mando::charts::{
    get_graph, get_health, plan_graph, plan_health, GraphPlan as GraphQuery, HealthPlan,
};
use mando::config::{
    default_bind, default_exec_timeout_ms, CacheSettings, Config, Device, ExecSettings, Face,
    Graph, Group, Health, Kind, Mesh, MeshThresholds, Preset, Push,
};
use mando::control::{
    brightness_device, color_device, device_op, preset_device, valid_hex_color, Op, Plan,
};
use mando::dict::Dict;
use mando::groups::{group_member_result, group_op, is_group_complete, GroupPlan};
use mando::json::{Integer, Json};
use mando::listener::{
    listener_loss_is_alarming, listener_lost, rebaseline_is_due, Backoff, Happening, ListenerRun,
    Phase, Task,
};
use mando::mesh_job::{find_mesh, run_mesh_job, MeshJob};
use mando::push::{
    attr_key, ingest, parse_mat_listen_event, Ingested, PushEvent, PushStore, ONOFF_KEY,
    SOURCE_PUSH, SOURCE_READ,
};
use mando::reply::{push_not_configured, Reply};
use mando::shape::Shape;
use mando::state::{normalize_onoff_value, state_to_onoff_value, State};
use mando::status::{
    fetch_state, finish_read, get_state, node_id_drift, run_action, run_light_action, StateRoute,
};
use mando::subprocess::{ExecOutcome, ExecResult};
use mando::wire;
use serde_json::Value;

fn lines(v: &toml::Value) -> Vec<String> {
    v.as_array()
        .unwrap()
        .iter()
        .map(|s| s.as_str().unwrap().to_string())
        .collect()
}

fn text_at(t: &toml::Table, key: &str) -> Option<String> {
    t.get(key).map(|v| v.as_str().unwrap().to_string())
}

fn label_at(t: &toml::Table) -> Option<String> {
    text_at(t, "label").or_else(|| text_at(t, "alias"))
}

fn line_at(t: &toml::Table, key: &str) -> Option<Vec<String>> {
    t.get(key).map(lines)
}

fn number_at(t: &toml::Table, key: &str) -> Option<u64> {
    t.get(key).map(|v| v.as_integer().unwrap() as u64)
}

fn tables(t: &toml::Table, key: &str) -> Vec<toml::Table> {
    match t.get(key) {
        Some(v) => v
            .as_array()
            .unwrap()
            .iter()
            .map(|e| e.as_table().unwrap().clone())
            .collect(),
        None => Vec::new(),
    }
}

fn labels_at(t: &toml::Table, key: &str) -> Option<Dict<String>> {
    let table = t.get(key)?.as_table().unwrap();
    let mut d = Dict::new();
    for (k, v) in table {
        d.insert(k.clone(), v.as_str().unwrap().to_string());
    }
    Some(d)
}

fn device(t: &toml::Table) -> Device {
    Device {
        name: text_at(t, "name").unwrap(),
        label: label_at(t),
        kind: match text_at(t, "kind").as_deref() {
            None => Kind::default(),
            Some("shutter") => Kind::Shutter,
            Some("light") => Kind::Light,
            Some("switch") => Kind::Switch,
            Some(other) => panic!("kind {other}"),
        },
        get_state: line_at(t, "get_state").unwrap(),
        open: line_at(t, "open"),
        close: line_at(t, "close"),
        stop: line_at(t, "stop"),
        on: line_at(t, "on"),
        off: line_at(t, "off"),
        color: line_at(t, "color"),
        brightness: line_at(t, "brightness"),
        presets: tables(t, "preset")
            .iter()
            .map(|p| Preset {
                name: text_at(p, "name").unwrap(),
                label: label_at(p),
                color: text_at(p, "color"),
                cmd: line_at(p, "cmd").unwrap(),
            })
            .collect(),
        face: t.get("face").map(|_| Face::Light),
        members: line_at(t, "members").unwrap_or_default(),
        lane: text_at(t, "lane"),
        node_id: number_at(t, "node_id"),
    }
}

/// The configuration that a text holds.
fn read(text: &str) -> Config {
    let t: toml::Table = text.parse().unwrap();
    Config {
        bind: text_at(&t, "bind").unwrap_or_else(default_bind),
        devices: tables(&t, "device").iter().map(device).collect(),
        groups: tables(&t, "group")
            .iter()
            .map(|g| Group {
                name: text_at(g, "name").unwrap(),
                label: label_at(g),
                members: line_at(g, "members").unwrap(),
            })
            .collect(),
        graphs: tables(&t, "graph")
            .iter()
            .map(|g| Graph {
                name: text_at(g, "name").unwrap(),
                label: label_at(g),
                unit: text_at(g, "unit").unwrap(),
                unit_daily: text_at(g, "unit_daily"),
                chart: text_at(g, "chart"),
                query: line_at(g, "query").unwrap(),
                series_labels: labels_at(g, "series_labels"),
            })
            .collect(),
        health: t.get("health").map(|h| {
            let h = h.as_table().unwrap();
            Health {
                label: text_at(h, "label"),
                command: line_at(h, "command").unwrap(),
                labels: labels_at(h, "labels"),
            }
        }),
        execution: match t.get("exec") {
            Some(e) => ExecSettings {
                timeout_ms: number_at(e.as_table().unwrap(), "timeout_ms")
                    .unwrap_or_else(default_exec_timeout_ms),
            },
            None => ExecSettings::default(),
        },
        cache: CacheSettings {
            state_ttl_ms: t
                .get("cache")
                .and_then(|c| number_at(c.as_table().unwrap(), "state_ttl_ms"))
                .unwrap_or(1000),
        },
        push: t.get("push").map(|p| Push {
            listen: line_at(p.as_table().unwrap(), "listen").unwrap(),
        }),
        mesh: t.get("mesh").map(|m| {
            let m = m.as_table().unwrap();
            Mesh {
                label: text_at(m, "label"),
                command: line_at(m, "command").unwrap(),
                ttl_ms: number_at(m, "ttl_ms").unwrap_or(300_000),
                timeout_ms: number_at(m, "timeout_ms").unwrap_or(180_000),
                thresholds: MeshThresholds::default(),
                labels: labels_at(m, "labels"),
            }
        }),
    }
}

fn from_json(json: &Json) -> Value {
    match json {
        Json::Null => Value::Null,
        Json::Bool(b) => Value::from(*b),
        Json::Number(n) => match n.integer {
            Integer::Unsigned(u) => Value::from(u),
            Integer::Negative(i) => Value::from(i),
            Integer::No => Value::from(f64::from_bits(n.double.bits)),
        },
        Json::Text(s) => Value::from(s.as_str()),
        Json::Array(v) => Value::from(v.iter().map(from_json).collect::<Vec<_>>()),
        Json::Object(m) => {
            Value::Object(m.iter().map(|(k, v)| (k.clone(), from_json(v))).collect())
        }
    }
}

/// The answer as a document of `serde_json`.
fn value(shape: &Shape) -> Value {
    match shape {
        Shape::Null => Value::Null,
        Shape::Flag(b) => Value::from(*b),
        Shape::Count(n) => Value::from(*n),
        Shape::Signed(n) => Value::from(*n),
        Shape::Real(d) => Value::from(f64::from_bits(d.bits)),
        Shape::Text(s) => Value::from(s.as_str()),
        Shape::List(v) => Value::from(v.iter().map(value).collect::<Vec<_>>()),
        Shape::Record(m) => {
            Value::Object(m.iter().map(|(k, v)| (k.clone(), value(v))).collect())
        }
        Shape::Raw(json) => from_json(json),
    }
}

fn body(reply: &Reply) -> Value {
    serde_json::from_str(&reply.body).unwrap()
}

/// A command that succeeded and printed that.
fn printed(stdout: &str) -> ExecResult {
    ExecResult::finished(Some(0), stdout.as_bytes(), b"")
}

fn exited(code: i32) -> ExecResult {
    ExecResult::finished(Some(code), b"", b"")
}

const HOME: &str = r##"
    [[device]]
    name = "light"
    kind = "light"
    get_state = ["light-state"]
    on  = ["light-on"]
    off = ["light-off"]
    color = ["sh", "-c", "test \"$1\" = '#ff69b4' && printf '{}'", "sh", "{color}"]
    brightness = ["sh", "-c", "test \"$1\" = '50' && printf '{}'", "sh", "{brightness}"]
    [[device.preset]]
    name  = "warm"
    label = "電球色"
    color = "#ffd9a0"
    cmd   = ["warm-it"]
    [[device]]
    name = "plain"
    kind = "light"
    get_state = ["plain-state"]
    on  = ["plain-on"]
    off = ["plain-off"]
    [[device]]
    name = "shutter"
    get_state = ["shutter-state"]
    open  = ["shutter-open"]
    close = ["shutter-close"]
    [[device]]
    name = "blind"
    get_state = ["blind-state"]
    open  = ["blind-open"]
    close = ["blind-close"]
    stop  = ["blind-stop"]
    [[group]]
    name = "all"
    label = "全部"
    members = ["blind", "shutter"]
    [[group]]
    name = "one"
    members = []
    [[graph]]
    name       = "generation"
    label      = "太陽光発電"
    unit       = "W"
    unit_daily = "kWh"
    query      = ["query", "generation-{period}", "{period}"]
    [[graph]]
    name  = "co2"
    label = "CO2"
    unit  = "ppm"
    query = ["query", "{period}"]
    [[graph]]
    name  = "machine"
    label = "jarvis"
    unit  = "%"
    query = ["query", "{period}"]
    series_labels = { cpu_used_pct = "CPU (%)", cpu_temp_c = "温度 (℃)" }
    [[graph]]
    name  = "power_balance"
    unit  = "円"
    chart = "stacked"
    query = ["query", "{period}"]
    [health]
    label   = "jarvis"
    command = ["health"]
    [health.labels]
    cpu_used_pct  = "CPU"
    disk_used_pct = "ディスク"
"##;

const GENERATION: &str = r#"[{"ts":"2026-07-15T10:05:00+09:00","value":200},{"ts":"2026-07-15T10:00:00+09:00","value":100},{"ts":"2026-07-15T23:59:00+09:00","series":"@summary","value":5.6}]"#;

fn refusal(plan: Plan) -> Reply {
    match plan {
        Plan::Refuse(r) => r,
        other => panic!("{other:?}"),
    }
}

fn sent(plan: Plan) -> Vec<String> {
    match plan {
        Plan::Send { cmd, .. } => cmd,
        other => panic!("{other:?}"),
    }
}

#[test]
fn devices_list_has_kind_and_presets() {
    let v = value(&list_shape(&list_devices(&read(HOME))));
    let arr = v.as_array().unwrap();
    let light = arr.iter().find(|d| d["name"] == "light").unwrap();
    assert_eq!(light["kind"], "light");
    assert_eq!(light["presets"][0]["name"], "warm");
    assert_eq!(light["presets"][0]["label"], "電球色");
    assert_eq!(light["presets"][0]["color"], "#ffd9a0");
    let sh = arr.iter().find(|d| d["name"] == "shutter").unwrap();
    assert_eq!(sh["kind"], "shutter");
    assert_eq!(sh["presets"].as_array().unwrap().len(), 0);
    assert_eq!(sh["face"], Value::Null);
    assert_eq!(sh["stop"], false);
    assert_eq!(arr.iter().find(|d| d["name"] == "blind").unwrap()["stop"], true);
}

#[test]
fn devices_list_has_color_supported() {
    let v = value(&list_shape(&list_devices(&read(HOME))));
    let arr = v.as_array().unwrap();
    let find = |n: &str| arr.iter().find(|d| d["name"] == n).unwrap();
    assert_eq!(find("light")["color_supported"], true);
    assert_eq!(find("plain")["color_supported"], false);
    assert_eq!(find("shutter")["color_supported"], false);
}

#[test]
fn devices_list_has_brightness_supported() {
    let v = value(&list_shape(&list_devices(&read(HOME))));
    let arr = v.as_array().unwrap();
    let find = |n: &str| arr.iter().find(|d| d["name"] == n).unwrap();
    assert_eq!(find("light")["brightness_supported"], true);
    assert_eq!(find("plain")["brightness_supported"], false);
    assert_eq!(find("shutter")["brightness_supported"], false);
}

#[test]
fn devices_list_has_members_only_when_present() {
    let cfg = r##"
        [[device]]
        name = "parent"
        kind = "light"
        members = ["kid"]
        get_state = ["g"]
        on  = ["on"]
        off = ["off"]
        [[device]]
        name = "kid"
        kind = "light"
        get_state = ["g"]
        on  = ["on"]
        off = ["off"]
    "##;
    let v = value(&list_shape(&list_devices(&read(cfg))));
    let arr = v.as_array().unwrap();
    let parent = arr.iter().find(|d| d["name"] == "parent").unwrap();
    assert_eq!(parent["members"], Value::from(vec!["kid"]));
    let kid = arr.iter().find(|d| d["name"] == "kid").unwrap();
    assert!(kid.get("members").is_none());
}

#[test]
fn groups_list_has_members_and_stop() {
    let v = value(&list_shape(&list_groups(&read(HOME))));
    assert_eq!(
        v.to_string(),
        r#"[{"label":"全部","members":["blind","shutter"],"name":"all","stop":false},{"label":"one","members":[],"name":"one","stop":true}]"#
    );
}

#[test]
fn graphs_list_has_name_and_label() {
    let v = value(&list_shape(&list_graphs(&read(HOME))));
    let arr = v.as_array().unwrap();
    let gen = arr.iter().find(|g| g["name"] == "generation").unwrap();
    assert_eq!(gen["label"], "太陽光発電");
}

#[test]
fn light_state_normalized_as_on() {
    let c = read(HOME);
    let view = fetch_state(c.find("light").unwrap(), &printed(r#"{"value":true}"#));
    let v = value(&view.shape());
    assert_eq!(v["state"], "on");
    assert_eq!(v["exec"], "success");
    assert_eq!(v["raw"]["value"], true);
}

#[test]
fn shutter_state_still_normalized_as_open() {
    let c = read(HOME);
    let out = r#"{"properties":[{"name":"open_close_state","value":"open"}]}"#;
    let view = fetch_state(c.find("shutter").unwrap(), &printed(out));
    assert_eq!(value(&view.shape())["state"], "open");
}

#[test]
fn state_that_is_not_json_is_unknown() {
    let c = read(HOME);
    let view = fetch_state(c.find("shutter").unwrap(), &printed("not-json"));
    assert_eq!(view.state, State::Unknown);
    assert_eq!(view.outcome, ExecOutcome::Success);
    assert_eq!(value(&view.shape())["raw"], Value::Null);
    assert!(view.cacheable());
}

#[test]
fn device_exec_times_out_and_maps_to_timeout_outcome() {
    let c = read(HOME);
    let view = fetch_state(c.find("light").unwrap(), &ExecResult::timed_out());
    assert_eq!(view.outcome, ExecOutcome::Timeout);
    assert_eq!(view.state, State::Unknown);
    assert!(view.raw.is_none());
    assert!(!view.cacheable());
    assert_eq!(ExecResult::timed_out().stderr, "exec timeout");
}

#[test]
fn node_drift_is_noticed() {
    let c = read("[[device]]\nname = \"l\"\nkind = \"light\"\nnode_id = 5\nget_state = [\"g\"]");
    let d = &c.devices[0];
    assert_eq!(
        node_id_drift(d, &wire::parse(r#"{"node_id": 6}"#).unwrap()),
        Some((5, 6))
    );
    assert_eq!(
        node_id_drift(d, &wire::parse(r#"{"node_id": 5}"#).unwrap()),
        None
    );
    assert_eq!(node_id_drift(d, &wire::parse("{}").unwrap()), None);
}

#[test]
fn light_on_returns_action_only() {
    let c = read(HOME);
    assert_eq!(sent(device_op(&c, "light", Op::On)), vec!["light-on"]);
    assert_eq!(sent(device_op(&c, "light", Op::Off)), vec!["light-off"]);
    let v = value(&run_light_action(&printed("{}")).shape());
    assert_eq!(v["action"], "success");
    assert!(v.get("state").is_none());
    assert!(v.get("exec").is_none());
    assert!(v.get("raw").is_none());
}

#[test]
fn preset_returns_action_only() {
    let c = read(HOME);
    assert_eq!(sent(preset_device(&c, "light", "warm")), vec!["warm-it"]);
    let v = value(&run_light_action(&printed("{}")).shape());
    assert_eq!(v["action"], "success");
    assert!(v.get("state").is_none());
}

#[test]
fn shutter_open_still_returns_confirmed_state() {
    let c = read(HOME);
    match device_op(&c, "shutter", Op::Open) {
        Plan::Confirm { device, cmd } => {
            assert_eq!(cmd, vec!["shutter-open"]);
            let out = r#"{"properties":[{"name":"open_close_state","value":"open"}]}"#;
            let v = value(&run_action(&printed("{}"), device, &printed(out)).shape());
            assert_eq!(v["action"], "success");
            assert_eq!(v["state"], "open");
            let v = value(&run_action(&exited(4), device, &printed(out)).shape());
            assert_eq!(v["action"], "rejected");
        }
        other => panic!("{other:?}"),
    }
}

#[test]
fn kind_mismatch_is_404() {
    let c = read(HOME);
    for r in [
        refusal(device_op(&c, "light", Op::Open)),
        refusal(device_op(&c, "light", Op::Stop)),
        refusal(device_op(&c, "shutter", Op::On)),
        refusal(preset_device(&c, "shutter", "warm")),
    ] {
        assert_eq!(r.status, 404);
    }
    assert_eq!(
        refusal(device_op(&c, "light", Op::Open)).body,
        r#"{"error":"unsupported operation","name":"light"}"#
    );
}

#[test]
fn unknown_preset_is_404() {
    let c = read(HOME);
    let r = refusal(preset_device(&c, "light", "nope"));
    assert_eq!(r.status, 404);
    assert_eq!(body(&r)["error"], "unknown preset");
    assert_eq!(
        r.body,
        r#"{"error":"unknown preset","name":"light","preset":"nope"}"#
    );
}

#[test]
fn unknown_device_is_404() {
    let c = read(HOME);
    let r = refusal(device_op(&c, "ghost", Op::On));
    assert_eq!(r.status, 404);
    assert_eq!(r.body, r#"{"error":"unknown device","name":"ghost"}"#);
    let r = refusal(device_op(&c, "a\"b", Op::On));
    assert_eq!(r.body, r#"{"error":"unknown device","name":"a\"b"}"#);
}

#[test]
fn color_valid_hex_returns_action_only() {
    let c = read(HOME);
    assert_eq!(
        sent(color_device(&c, "light", "#ff69b4"))[4],
        "#ff69b4"
    );
    let v = value(&run_light_action(&printed("{}")).shape());
    assert_eq!(v["action"], "success");
    assert!(v.get("state").is_none());
}

#[test]
fn color_substitution_reaches_argv() {
    let c = read(HOME);
    let cmd = sent(color_device(&c, "light", "#00ff00"));
    assert_eq!(cmd.len(), 5);
    assert_eq!(cmd[0], "sh");
    assert_eq!(cmd[4], "#00ff00");
}

#[test]
fn color_invalid_hex_is_400() {
    let c = read(HOME);
    for color in ["#GGGGGG", "red", "#fff", "#ff69b4aa", "", "#ff69b", "#ff69b４", "xff69b4"] {
        let r = refusal(color_device(&c, "light", color));
        assert_eq!(r.status, 400, "color: {color}");
        assert_eq!(body(&r)["error"], "invalid color");
        assert_eq!(body(&r)["color"], color);
        assert!(!valid_hex_color(color));
    }
    assert!(valid_hex_color("#09afAF"));
}

#[test]
fn color_without_template_is_404() {
    let c = read(HOME);
    for name in ["plain", "shutter", "ghost"] {
        assert_eq!(refusal(color_device(&c, name, "#ff69b4")).status, 404);
    }
}

#[test]
fn brightness_valid_returns_action_only() {
    let c = read(HOME);
    assert_eq!(
        sent(brightness_device(&c, "light", Value::from(50)))[4],
        "50"
    );
    let v = value(&run_light_action(&printed("{}")).shape());
    assert_eq!(v["action"], "success");
    assert!(v.get("state").is_none());
}

#[test]
fn brightness_substitution_reaches_argv() {
    let c = read(HOME);
    for level in [1u64, 9, 75, 100] {
        let cmd = sent(brightness_device(&c, "light", Value::from(level)));
        assert_eq!(cmd[4], level.to_string());
    }
}

#[test]
fn brightness_invalid_is_400() {
    let c = read(HOME);
    for (given, written) in [
        (Value::from(0), "0"),
        (Value::from(101), "101"),
        (Value::from("50"), "\"50\""),
        (Value::from(50.5), "50.5"),
        (Value::from(-1), "-1"),
    ] {
        let r = refusal(brightness_device(&c, "light", given));
        assert_eq!(r.status, 400);
        assert_eq!(
            r.body,
            format!("{{\"error\":\"invalid brightness\",\"brightness\":{written}}}")
        );
    }
}

#[test]
fn brightness_without_template_is_404() {
    let c = read(HOME);
    for name in ["plain", "shutter", "ghost"] {
        assert_eq!(
            refusal(brightness_device(&c, name, Value::from(50))).status,
            404
        );
    }
}

#[test]
fn group_members_are_operated_in_order() {
    let c = read(HOME);
    assert!(is_group_complete(&c, "all"));
    match group_op(&c, "all", Op::Stop) {
        GroupPlan::Steps(steps) => {
            assert_eq!(steps.len(), 2);
            assert_eq!(steps[0].device.name, "blind");
            assert_eq!(steps[0].cmd, Some(vec!["blind-stop".to_string()]));
            assert_eq!(steps[1].device.name, "shutter");
            assert_eq!(steps[1].cmd, None);
            let view = || fetch_state(steps[1].device, &exited(5));
            let skipped = group_member_result(steps[1].device, None, view());
            let v = value(&skipped.shape());
            assert_eq!(v["name"], "shutter");
            assert_eq!(v["skipped"], true);
            assert_eq!(v["action"], "success");
            assert_eq!(v["exec"], "network_error");
            let failed =
                group_member_result(steps[1].device, Some(ExecOutcome::Failed), view());
            let v = value(&failed.shape());
            assert_eq!(v["skipped"], false);
            assert_eq!(v["action"], "failed");
        }
        other => panic!("{other:?}"),
    }
    match group_op(&c, "ghost", Op::Open) {
        GroupPlan::Refuse(r) => {
            assert_eq!(r.status, 404);
            assert_eq!(r.body, r#"{"error":"unknown group","name":"ghost"}"#);
        }
        other => panic!("{other:?}"),
    }
    let broken = read("[[group]]\nname = \"g\"\nmembers = [\"no\"]");
    assert!(!is_group_complete(&broken, "g"));
}

fn run_graph(name: &str, period: Option<&str>, result: &ExecResult) -> Result<Value, Reply> {
    let c = read(HOME);
    let plan = plan_graph(&c, name, period);
    match plan {
        GraphQuery::Run { graph, period, .. } => match get_graph(graph, &period, result) {
            Ok(view) => Ok(value(&view.shape())),
            Err(r) => Err(r),
        },
        GraphQuery::Refuse(r) => Err(r),
    }
}

#[test]
fn graph_today_normalized_and_sorted() {
    let v = run_graph("generation", None, &printed(GENERATION)).unwrap();
    assert_eq!(v["name"], "generation");
    assert_eq!(v["period"], "today");
    assert_eq!(v["unit"], "W");
    let s = &v["series"][0];
    assert_eq!(s["label"], "太陽光発電");
    assert_eq!(s["points"][0][1], 100.0);
    assert_eq!(s["points"][1][1], 200.0);
    assert_eq!(
        s.to_string(),
        r#"{"label":"太陽光発電","points":[["2026-07-15T10:00:00+09:00",100.0],["2026-07-15T10:05:00+09:00",200.0]]}"#
    );
}

#[test]
fn graph_summary_from_sentinel() {
    let v = run_graph("generation", None, &printed(GENERATION)).unwrap();
    assert_eq!(v["summary"], 5.6);
    assert_eq!(v["summary_unit"], "kWh");
    assert_eq!(v["series"][0]["label"], "太陽光発電");
    assert_eq!(v["series"].as_array().unwrap().len(), 1);
}

#[test]
fn graph_stacked_carries_chart_and_series() {
    let out = r#"[{"ts":"t1","series":"買電","value":-80},{"ts":"t1","series":"売電","value":180},{"ts":"t1","series":"自家消費節約","value":130}]"#;
    let v = run_graph("power_balance", None, &printed(out)).unwrap();
    assert_eq!(v["chart"], "stacked");
    assert_eq!(v["unit"], "円");
    assert_eq!(v["series"].as_array().unwrap().len(), 3);
    assert!(v.get("summary").is_none() || v["summary"].is_null());
    assert_eq!(v["series"][0]["points"][0][1], -80.0);
}

#[test]
fn graph_week_uses_unit_daily() {
    let v = run_graph("generation", Some("week"), &printed(GENERATION)).unwrap();
    assert_eq!(v["period"], "week");
    assert_eq!(v["unit"], "kWh");
}

#[test]
fn graph_multi_series_first_appearance_order() {
    let out = r#"[{"ts":"t1","series":"書斎","value":800},{"ts":"t1","series":"リビング","value":600}]"#;
    let v = run_graph("co2", None, &printed(out)).unwrap();
    assert_eq!(v["unit"], "ppm");
    let arr = v["series"].as_array().unwrap();
    assert_eq!(arr.len(), 2);
    assert_eq!(arr[0]["label"], "書斎");
    assert_eq!(arr[1]["label"], "リビング");
}

#[test]
fn graph_period_substitution_reaches_argv() {
    let c = read(HOME);
    match plan_graph(&c, "generation", Some("month")) {
        GraphQuery::Run { cmd, period, .. } => {
            assert_eq!(cmd, vec!["query", "generation-month", "month"]);
            assert_eq!(period, "month");
        }
        other => panic!("{other:?}"),
    }
    let v = run_graph("co2", None, &printed("[]")).unwrap();
    assert_eq!(v["series"].as_array().unwrap().len(), 0);
}

#[test]
fn graph_invalid_period_is_400() {
    for p in ["yesterday", "TODAY", "today x", ""] {
        let r = run_graph("generation", Some(p), &printed("[]")).unwrap_err();
        assert_eq!(r.status, 400, "period: {p}");
        assert_eq!(body(&r)["error"], "invalid period");
        assert_eq!(body(&r)["period"], p);
    }
}

#[test]
fn graph_unknown_is_404() {
    let r = run_graph("ghost", None, &printed("[]")).unwrap_err();
    assert_eq!(r.status, 404);
    assert_eq!(body(&r)["error"], "unknown graph");
}

#[test]
fn graph_exec_failure_is_502() {
    let r = run_graph("co2", None, &exited(1)).unwrap_err();
    assert_eq!(r.status, 502);
    assert_eq!(body(&r)["error"], "graph query failed");
    assert_eq!(body(&r)["name"], "co2");
}

#[test]
fn graph_non_json_stdout_is_502() {
    for out in ["not-json", "{}"] {
        let r = run_graph("co2", None, &printed(out)).unwrap_err();
        assert_eq!(r.status, 502);
    }
}

#[test]
fn graph_series_labels_applied() {
    let out = r#"[{"ts":"t1","series":"cpu_used_pct","value":12.3},{"ts":"t1","series":"cpu_temp_c","value":52.0}]"#;
    let v = run_graph("machine", None, &printed(out)).unwrap();
    let labels: Vec<&str> = v["series"]
        .as_array()
        .unwrap()
        .iter()
        .map(|s| s["label"].as_str().unwrap())
        .collect();
    assert_eq!(labels, vec!["CPU (%)", "温度 (℃)"]);
}

#[test]
fn health_normalized_with_labels() {
    let c = read(HOME);
    let health = match plan_health(&c) {
        HealthPlan::Run(h) => h,
        other => panic!("{other:?}"),
    };
    let out = r#"[{"metric":"cpu_used_pct","value":12.3,"ts":"t1","level":"ok"},{"metric":"disk_used_pct","value":83.2,"ts":"t1","level":"warn"}]"#;
    let v = value(&get_health(health, &printed(out)).unwrap().shape());
    assert_eq!(v["label"], "jarvis");
    assert_eq!(v["worst"], "warn");
    let items = v["items"].as_array().unwrap();
    assert_eq!(items.len(), 2);
    assert_eq!(items[0]["label"], "CPU");
    assert_eq!(items[1]["label"], "ディスク");
    assert_eq!(items[1]["value"], 83.2);
    assert_eq!(items[1]["level"], "warn");
}

#[test]
fn health_not_configured_is_404() {
    let c = read("");
    match plan_health(&c) {
        HealthPlan::Refuse(r) => {
            assert_eq!(r.status, 404);
            assert_eq!(r.body, r#"{"error":"health not configured"}"#);
        }
        other => panic!("{other:?}"),
    }
}

#[test]
fn health_exec_failure_is_502() {
    let c = read(HOME);
    let r = get_health(c.health.as_ref().unwrap(), &exited(1)).unwrap_err();
    assert_eq!(r.status, 502);
    assert_eq!(body(&r)["error"], "health query failed");
}

#[test]
fn health_non_json_stdout_is_502() {
    let c = read(HOME);
    let r = get_health(c.health.as_ref().unwrap(), &printed("not-json")).unwrap_err();
    assert_eq!(r.status, 502);
}

const MESH_OK: &str = r#"{"timestamp":"t1","network":{"name":"test-thread","channel":15,"partition_ids":[1],"leader_router_id":38},"nodes":[{"id":"node:5","node_id":5,"alias":"desk_light","role":"router","probed":true},{"id":"ext:0011223344556677","ext_address":"0011223344556677","role":"leader"}],"edges":[{"a":"node:5","b":"ext:0011223344556677","a_sees_b":{"lqi":1,"avg_rssi":-94,"frame_error_rate":88},"b_sees_a":null}]}"#;

const MS: u64 = 1_000_000;

#[test]
fn mesh_api_404_without_config() {
    let c = read("");
    let r = find_mesh(&c).unwrap_err();
    assert_eq!(r.status, 404);
    assert_eq!(r.body, r#"{"error":"mesh not configured"}"#);
}

#[test]
fn mesh_starts_empty_and_stale() {
    let c = read("[mesh]\nlabel = \"自宅メッシュ\"\ncommand = [\"m\"]");
    let job = MeshJob::default();
    let v = value(&job.status(find_mesh(&c).unwrap(), 5 * MS).shape());
    assert_eq!(v["status"], "empty");
    assert_eq!(v["label"], "自宅メッシュ");
    assert_eq!(v["stale"], true);
    assert!(v.get("snapshot").is_none());
    assert!(v.get("age_ms").is_none());
}

#[test]
fn mesh_refresh_produces_snapshot() {
    let c = read("[mesh]\ncommand = [\"m\"]\nttl_ms = 1000");
    let mesh = find_mesh(&c).unwrap();
    let mut job = MeshJob::default();
    assert!(job.begin(10 * MS));
    let v = value(&job.status(mesh, 15 * MS).shape());
    assert_eq!(v["status"], "running");
    assert_eq!(v["elapsed_ms"], 5);
    assert_eq!(v["stale"], false);
    let read = run_mesh_job(mesh, &printed(MESH_OK)).unwrap();
    job.finish(20 * MS, read);
    let v = value(&job.status(mesh, 25 * MS).shape());
    assert_eq!(v["status"], "idle");
    assert_eq!(v["stale"], false);
    assert_eq!(v["age_ms"].as_u64(), Some(5));
    let snap = &v["snapshot"];
    assert_eq!(snap["network"]["name"], "test-thread");
    assert_eq!(snap["network"]["split"], false);
    assert_eq!(snap["nodes"].as_array().unwrap().len(), 2);
    assert_eq!(snap["unidentified_count"], 1);
    assert_eq!(snap["edges"][0]["grade"], "weak");
    assert_eq!(snap["edges"][0]["rssi"], -94);
    assert_eq!(snap["fetched_at"], "t1");
    assert!(value(&job.status(mesh, 1020 * MS).shape())["stale"] == true);
    assert!(value(&job.status(mesh, 1020 * MS - 1).shape())["stale"] == false);
}

#[test]
fn mesh_refresh_is_single_flight() {
    let mut job = MeshJob::default();
    assert!(job.begin(1));
    assert!(!job.begin(2));
    assert!(!job.begin(3));
    assert_eq!(job.running_since, Some(1));
}

#[test]
fn mesh_reports_command_failure() {
    let c = read("[mesh]\ncommand = [\"m\"]");
    let mesh = find_mesh(&c).unwrap();
    for (result, word) in [
        (exited(1), "failed"),
        (exited(3), "timeout"),
        (exited(4), "rejected"),
        (exited(5), "network_error"),
        (ExecResult::not_started("no"), "spawn_failed"),
        (ExecResult::timed_out(), "timeout"),
    ] {
        let mut job = MeshJob::default();
        job.begin(1);
        job.finish(2, run_mesh_job(mesh, &result).unwrap());
        let v = value(&job.status(mesh, 3).shape());
        assert_eq!(v["status"], "failed");
        assert_eq!(v["error"], word);
        assert!(v.get("snapshot").is_none());
    }
}

#[test]
fn mesh_refresh_clears_stale_error_while_running() {
    let c = read("[mesh]\ncommand = [\"m\"]");
    let mesh = find_mesh(&c).unwrap();
    let mut job = MeshJob::default();
    job.begin(1);
    job.finish(2, run_mesh_job(mesh, &exited(1)).unwrap());
    assert!(job.begin(3));
    let v = value(&job.status(mesh, 4).shape());
    assert_eq!(v["status"], "running");
    assert!(v.get("error").is_none() || v["error"].is_null());
    let empty = r#"{"network":{"partition_ids":[]},"nodes":[],"edges":[]}"#;
    job.finish(5, run_mesh_job(mesh, &printed(empty)).unwrap());
    assert_eq!(value(&job.status(mesh, 6).shape())["status"], "idle");
}

#[test]
fn mesh_reports_bad_json() {
    let c = read("[mesh]\ncommand = [\"m\"]");
    let mesh = find_mesh(&c).unwrap();
    let mut job = MeshJob::default();
    job.begin(1);
    job.finish(2, run_mesh_job(mesh, &printed("not-json")).unwrap());
    let v = value(&job.status(mesh, 3).shape());
    assert_eq!(v["status"], "failed");
    assert_eq!(v["error"], "bad_json");
}

#[test]
fn mesh_with_an_address_that_cannot_be_cut() {
    let c = read("[mesh]\ncommand = [\"m\"]");
    let mesh = find_mesh(&c).unwrap();
    let torn = r#"{"nodes":[{"id":"x","ext_address":"abcあ"}]}"#;
    assert!(run_mesh_job(mesh, &printed(torn)).is_none());
    for (address, name) in [("abあ", "abあ"), ("aあz", "aあ"), ("é", "é"), ("ééz", "éé"), ("😀", "😀")] {
        let out = format!(r#"{{"nodes":[{{"id":"x","ext_address":"{address}"}}]}}"#);
        let read = run_mesh_job(mesh, &printed(&out));
        match (read, name == "abあ") {
            (None, true) => {}
            (Some(Ok(v)), false) => assert_eq!(v.nodes[0].name, name),
            (other, _) => panic!("{address}: {other:?}"),
        }
    }
}

const PUSHED: &str = r##"
    [push]
    listen = ["true"]
    [[device]]
    name = "living_lights"
    kind = "light"
    node_id = 5
    members = ["living_south_light"]
    get_state = ["true"]
    on = ["true"]
    off = ["true"]
    [[device]]
    name = "living_south_light"
    kind = "light"
    node_id = 5
    get_state = ["true"]
    on = ["true"]
    off = ["true"]
    [[device]]
    name = "desk_light"
    kind = "light"
    node_id = 6
    get_state = ["true"]
    on = ["true"]
    off = ["true"]
    [[device]]
    name = "plain"
    kind = "light"
    get_state = ["true"]
    on = ["true"]
    off = ["true"]
    [[device]]
    name = "blind"
    node_id = 7
    get_state = ["true"]
    open = ["true"]
    close = ["true"]
"##;

fn store() -> PushStore {
    PushStore::new(&read(PUSHED))
}

fn connected_store() -> PushStore {
    let mut s = store();
    s.set_connected(true);
    s
}

fn onoff_event(node_id: u64, on: bool) -> PushEvent {
    PushEvent {
        node_id,
        cluster: "onoff".into(),
        attribute: "on-off".into(),
        value: Json::Bool(on),
    }
}

fn level_event(node_id: u64) -> PushEvent {
    PushEvent {
        node_id,
        cluster: "levelcontrol".into(),
        attribute: "current-level".into(),
        value: wire::parse("120").unwrap(),
    }
}

fn primed(s: &PushStore, device: &str) -> Option<State> {
    s.primed_state(device).map(|(st, _)| st)
}

#[test]
fn tracks_only_lights_with_node_id() {
    let s = store();
    assert!(s.tracks("living_lights"));
    assert!(s.tracks("desk_light"));
    assert!(!s.tracks("plain"));
    assert!(!s.tracks("ghost"));
    assert!(!s.tracks("blind"));
}

#[test]
fn event_primes_all_devices_sharing_a_node() {
    let mut s = connected_store();
    assert!(s.apply(&onoff_event(5, true)).is_some());
    assert_eq!(primed(&s, "living_lights"), Some(State::On));
    assert_eq!(primed(&s, "living_south_light"), Some(State::On));
    assert_eq!(primed(&s, "desk_light"), None);
}

#[test]
fn unknown_node_is_ignored() {
    let mut s = connected_store();
    assert!(s.apply(&onoff_event(99, true)).is_none());
    assert_eq!(primed(&s, "living_lights"), None);
}

#[test]
fn unprimed_while_disconnected_even_with_a_value() {
    let mut s = connected_store();
    s.apply(&onoff_event(6, true));
    assert_eq!(primed(&s, "desk_light"), Some(State::On));
    s.set_connected(false);
    assert_eq!(primed(&s, "desk_light"), None);
    s.set_connected(true);
    assert_eq!(primed(&s, "desk_light"), None);
}

#[test]
fn baseline_primes_and_is_ignored_while_disconnected() {
    let mut s = store();
    let generation = s.generation();
    s.baseline("desk_light", State::On, generation);
    assert_eq!(primed(&s, "desk_light"), None);
    s.set_connected(true);
    let generation = s.generation();
    s.baseline("desk_light", State::On, generation);
    assert_eq!(primed(&s, "desk_light"), Some(State::On));
    s.baseline("living_lights", State::Unknown, generation);
    assert_eq!(primed(&s, "living_lights"), None);
}

#[test]
fn baseline_from_a_read_that_straddled_a_disconnect_is_dropped() {
    let mut s = connected_store();
    let generation = s.generation();
    s.set_connected(false);
    s.set_connected(true);
    s.baseline("desk_light", State::On, generation);
    assert_eq!(primed(&s, "desk_light"), None);
    let generation = s.generation();
    s.baseline("desk_light", State::On, generation);
    assert_eq!(primed(&s, "desk_light"), Some(State::On));
}

#[test]
fn other_attributes_do_not_become_state() {
    let mut s = connected_store();
    s.apply(&level_event(6));
    assert_eq!(primed(&s, "desk_light"), None);
    s.apply(&onoff_event(6, false));
    assert_eq!(primed(&s, "desk_light"), Some(State::Off));
}

#[test]
fn onoff_source_is_not_overwritten_by_other_attributes() {
    let mut s = connected_store();
    let generation = s.generation();
    s.baseline("desk_light", State::On, generation);
    assert_eq!(
        s.primed_state("desk_light"),
        Some((State::On, SOURCE_READ))
    );
    s.apply(&level_event(6));
    assert_eq!(
        s.primed_state("desk_light"),
        Some((State::On, SOURCE_READ))
    );
    s.apply(&onoff_event(6, false));
    assert_eq!(
        s.primed_state("desk_light"),
        Some((State::Off, SOURCE_PUSH))
    );
}

#[test]
fn invalidate_drops_the_baseline() {
    let mut s = connected_store();
    s.apply(&onoff_event(6, true));
    assert_eq!(primed(&s, "desk_light"), Some(State::On));
    s.invalidate("desk_light");
    assert_eq!(primed(&s, "desk_light"), None);
}

#[test]
fn invalidate_covers_devices_sharing_a_node() {
    let mut s = connected_store();
    s.apply(&onoff_event(5, true));
    s.apply(&onoff_event(6, true));
    assert_eq!(primed(&s, "living_lights"), Some(State::On));
    assert_eq!(primed(&s, "living_south_light"), Some(State::On));
    s.invalidate("living_lights");
    assert_eq!(primed(&s, "living_lights"), None);
    assert_eq!(primed(&s, "living_south_light"), None);
    assert_eq!(primed(&s, "desk_light"), Some(State::On));
}

#[test]
fn nothing_is_told_after_close() {
    let mut s = connected_store();
    assert!(s.is_open());
    s.close();
    assert!(!s.is_open());
    assert!(s.apply(&onoff_event(6, true)).unwrap().is_empty());
    s.set_connected(true);
    assert!(!s.is_open());
}

#[test]
fn apply_and_baseline_after_close_are_harmless() {
    let mut s = connected_store();
    s.close();
    s.apply(&onoff_event(6, true));
    let generation = s.generation();
    assert!(s.baseline("desk_light", State::Off, generation).is_empty());
    assert_eq!(primed(&s, "desk_light"), Some(State::Off));
}

#[test]
fn broadcasts_only_on_state_change() {
    let mut s = connected_store();
    let told = s.apply(&onoff_event(6, true)).unwrap();
    assert_eq!(told.len(), 1);
    assert_eq!(told[0].device, "desk_light");
    assert_eq!(told[0].state, State::On);
    assert_eq!(told[0].source, SOURCE_PUSH);
    assert!(!told[0].stale);
    assert!(s.apply(&onoff_event(6, true)).unwrap().is_empty());
    assert!(s.apply(&level_event(6)).unwrap().is_empty());
    let told = s.apply(&onoff_event(6, false)).unwrap();
    assert_eq!(told[0].state, State::Off);
    assert_eq!(
        value(&told[0].shape()).to_string(),
        r#"{"device":"desk_light","source":"push","stale":false,"state":"off"}"#
    );
    assert_eq!(s.apply(&onoff_event(5, true)).unwrap().len(), 2);
}

#[test]
fn baseline_broadcasts_with_read_source() {
    let mut s = connected_store();
    let generation = s.generation();
    let told = s.baseline("desk_light", State::Off, generation);
    assert_eq!(told.len(), 1);
    assert_eq!(told[0].source, SOURCE_READ);
    assert_eq!(told[0].state, State::Off);
}

#[test]
fn snapshot_omits_devices_without_a_baseline() {
    let mut s = connected_store();
    s.apply(&onoff_event(6, false));
    let snap = s.snapshot();
    assert_eq!(snap.len(), 1, "{snap:?}");
    assert_eq!(snap[0].device, "desk_light");
    assert_eq!(snap[0].state, State::Off);
    assert!(!snap[0].stale);
}

#[test]
fn snapshot_is_empty_while_disconnected() {
    let mut s = connected_store();
    s.apply(&onoff_event(6, false));
    s.set_connected(false);
    assert!(s.snapshot().is_empty());
}

#[test]
fn snapshot_keeps_the_order_of_the_configuration() {
    let mut s = connected_store();
    s.apply(&onoff_event(6, false));
    s.apply(&onoff_event(5, true));
    let names: Vec<String> = s.snapshot().into_iter().map(|e| e.device).collect();
    assert_eq!(names, vec!["living_lights", "living_south_light", "desk_light"]);
}

#[test]
fn ingest_drops_bad_lines_and_keeps_going() {
    let mut s = connected_store();
    for line in [
        "",
        "   ",
        "not json",
        r#"{"listening":true}"#,
        r#"{"node_id":6,"cluster":"onoff","attribute":"on-off"}"#,
        r#"{"cluster":"onoff","attribute":"on-off","value":true}"#,
    ] {
        assert!(matches!(
            ingest(&mut s, line),
            Ingested::Blank | Ingested::Unreadable
        ));
    }
    assert_eq!(primed(&s, "desk_light"), None);
    assert!(matches!(
        ingest(
            &mut s,
            r#"{"node_id":99,"cluster":"onoff","attribute":"on-off","value":true}"#
        ),
        Ingested::Foreign(99)
    ));
    ingest(
        &mut s,
        r#"  {"timestamp":"t","node_id":6,"endpoint":1,"cluster":"onoff","attribute":"on-off","value":true,"priming":false,"recovered":false}"#,
    );
    assert_eq!(primed(&s, "desk_light"), Some(State::On));
}

#[test]
fn ingest_takes_priming_and_recovered_events() {
    let mut s = connected_store();
    ingest(
        &mut s,
        r#"{"node_id":6,"cluster":"onoff","attribute":"on-off","value":true,"priming":true,"recovered":false}"#,
    );
    assert_eq!(primed(&s, "desk_light"), Some(State::On));
}

#[test]
fn lines_of_the_listener() {
    let e = parse_mat_listen_event(
        r#"{"node_id":6,"cluster":"onoff","attribute":"on-off","value":true}"#,
    )
    .unwrap();
    assert_eq!(e.node_id, 6);
    assert_eq!(attr_key(&e.cluster, &e.attribute), ONOFF_KEY);
    assert!(matches!(e.value, Json::Bool(true)));
    assert!(parse_mat_listen_event(r#"{"node_id":-6,"cluster":"onoff","attribute":"on-off","value":true}"#).is_none());
}

#[test]
fn states_and_truth_values() {
    for state in [State::On, State::Off] {
        let v = state_to_onoff_value(state).unwrap();
        assert_eq!(normalize_onoff_value(&v), state);
    }
    for state in [State::Open, State::Closed, State::Unknown, State::Stopped] {
        assert!(state_to_onoff_value(state).is_none());
    }
}

#[test]
fn lights_are_not_answered_from_the_cache() {
    let c = read(PUSHED);
    assert!(matches!(get_state(&c, None, "desk_light"), StateRoute::Fresh(d) if d.name == "desk_light"));
    assert!(matches!(get_state(&c, None, "blind"), StateRoute::Shared(d) if d.name == "blind"));
    let s = connected_store();
    assert!(matches!(get_state(&c, Some(&s), "plain"), StateRoute::Fresh(_)));
    assert!(matches!(get_state(&c, Some(&s), "ghost"), StateRoute::Refuse(r) if r.status == 404));
}

#[test]
fn pushed_light_is_read_once_and_then_answered_at_once() {
    let c = read(PUSHED);
    let mut s = connected_store();
    let generation = match get_state(&c, Some(&s), "desk_light") {
        StateRoute::Primes(d, generation) => {
            assert_eq!(d.name, "desk_light");
            generation
        }
        other => panic!("{other:?}"),
    };
    let d = c.find("desk_light").unwrap();
    let view = fetch_state(d, &printed(r#"{"value":true,"node_id":6}"#));
    let (answer, told) = finish_read(&mut s, d, view, generation);
    let v = value(&answer.shape());
    assert_eq!(v["state"], "on");
    assert_eq!(v["exec"], "success");
    assert_eq!(v["source"], "read");
    assert_eq!(v["stale"], false);
    assert_eq!(told.len(), 1);
    match get_state(&c, Some(&s), "desk_light") {
        StateRoute::Pushed(view) => {
            let v = value(&view.shape());
            assert_eq!(v["state"], "on");
            assert_eq!(v["source"], "read");
            assert_eq!(v["stale"], false);
            assert!(v.get("exec").is_none());
        }
        other => panic!("{other:?}"),
    }
    s.invalidate("desk_light");
    assert!(matches!(
        get_state(&c, Some(&s), "desk_light"),
        StateRoute::Primes(_, _)
    ));
}

#[test]
fn pushed_light_that_cannot_be_read_is_stale() {
    let c = read(PUSHED);
    let mut s = connected_store();
    let d = c.find("desk_light").unwrap();
    let generation = s.generation();
    let view = fetch_state(d, &exited(3));
    let (answer, told) = finish_read(&mut s, d, view, generation);
    let v = value(&answer.shape());
    assert_eq!(v["state"], "unknown");
    assert_eq!(v["exec"], "timeout");
    assert_eq!(v["stale"], true);
    assert!(told.is_empty());
    assert_eq!(primed(&s, "desk_light"), None);
}

#[test]
fn events_without_a_subscription_are_404() {
    let r = push_not_configured();
    assert_eq!(r.status, 404);
    assert_eq!(r.body, r#"{"error":"push not configured"}"#);
}

#[test]
fn listener_loss_is_alarming_only_when_it_repeats() {
    assert!(!listener_loss_is_alarming(1));
    assert!(!listener_loss_is_alarming(2));
    assert!(listener_loss_is_alarming(3));
    assert!(listener_loss_is_alarming(10));
}

#[test]
fn waits_double_up_to_a_limit_and_begin_anew() {
    let mut b = Backoff::new();
    let mut waits = Vec::new();
    for _ in 0..7 {
        waits.push(b.lost(10).wait_ms);
    }
    assert_eq!(waits, vec![1000, 2000, 4000, 8000, 16000, 30000, 30000]);
    let loss = b.lost(59_999);
    assert_eq!((loss.wait_ms, loss.losses, loss.alarming), (30000, 8, true));
    let loss = b.lost(60_000);
    assert_eq!((loss.wait_ms, loss.losses, loss.alarming), (1000, 1, false));
    assert_eq!(b.lost(0).wait_ms, 2000);
}

#[test]
fn listener_streams_lines_and_asks_for_a_reading() {
    let mut s = store();
    let mut run = ListenerRun::new();
    let generation = match run.step(&mut s, Happening::Started) {
        Task::ReadAndRebaseline { delay_ms, generation } => {
            assert_eq!(delay_ms, 3000);
            generation
        }
        other => panic!("{other:?}"),
    };
    for line in [
        r#"{"node_id":6,"cluster":"onoff","attribute":"on-off","value":true}"#,
        "garbage",
        r#"{"node_id":6,"cluster":"onoff","attribute":"on-off","value":false}"#,
    ] {
        assert!(matches!(
            run.step(&mut s, Happening::Line(line.to_string())),
            Task::ReadOn(_)
        ));
    }
    assert_eq!(primed(&s, "desk_light"), Some(State::Off));
    assert!(rebaseline_is_due(&s, generation));
}

#[test]
fn listener_that_dies_at_once_asks_for_no_reading() {
    let mut s = store();
    let mut b = Backoff::new();
    let mut run = ListenerRun::new();
    let generation = match run.step(&mut s, Happening::Started) {
        Task::ReadAndRebaseline { generation, .. } => generation,
        other => panic!("{other:?}"),
    };
    assert!(matches!(
        run.step(&mut s, Happening::OutputEnded),
        Task::AwaitExit { grace_ms: 2000 }
    ));
    assert!(matches!(run.step(&mut s, Happening::Exited), Task::Stop));
    listener_lost(&mut s, &mut b, 5);
    assert!(!rebaseline_is_due(&s, generation));
    s.set_connected(true);
    assert!(!rebaseline_is_due(&s, generation));
}

#[test]
fn listener_that_stays_after_its_output_is_killed() {
    let mut s = store();
    let mut run = ListenerRun::new();
    run.step(&mut s, Happening::Started);
    run.step(&mut s, Happening::OutputEnded);
    assert!(matches!(run.step(&mut s, Happening::StillThere), Task::Kill));
    assert!(matches!(run.step(&mut s, Happening::Exited), Task::Stop));
    assert_eq!(run.phase, Phase::Over);
    assert!(matches!(
        run.step(&mut s, Happening::Line("x".to_string())),
        Task::Ignore
    ));
}

#[test]
fn listener_that_does_not_start() {
    let mut s = store();
    let mut run = ListenerRun::new();
    assert!(matches!(run.step(&mut s, Happening::NotStarted), Task::Stop));
    assert_eq!(run.phase, Phase::Over);
    assert_eq!(s.generation(), 0);
}
