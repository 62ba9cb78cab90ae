//! What a configuration has to keep to.

use mando::config::{
    default_bind, default_exec_timeout_ms, warn_missing_node_ids, CacheSettings, Config, Device,
    ExecSettings, Face, Graph, Group, Health, Kind, Mesh, MeshThresholds, Preset, Push,
};
use mando::dict::Dict;
use mando::validate::{forbid, require, ConfigError};

fn lines(v: &toml::Value) -> Vec<String> {
    v.as_array()
        .unwrap()
        .iter()
        .map(|s| s.as_str().unwrap().to_string())
        .collect()
}

fn text_at(t: &toml::Table, key: &str) -> Option<String> {
    t.get(key).map(|v| v.as_str().unwrap().to_string())
}

fn label_at(t: &toml::Table) -> Option<String> {
    text_at(t, "label").or_else(|| text_at(t, "alias"))
}

fn line_at(t: &toml::Table, key: &str) -> Option<Vec<String>> {
    t.get(key).map(lines)
}

fn number_at(t: &toml::Table, key: &str) -> Option<u64> {
    t.get(key).map(|v| v.as_integer().unwrap() as u64)
}

fn tables(t: &toml::Table, key: &str) -> Vec<toml::Table> {
    match t.get(key) {
        Some(v) => v
            .as_array()
            .unwrap()
            .iter()
            .map(|e| e.as_table().unwrap().clone())
            .collect(),
        None => Vec::new(),
    }
}

fn labels_at(t: &toml::Table, key: &str) -> Option<Dict<String>> {
    let table = t.get(key)?.as_table().unwrap();
    let mut d = Dict::new();
    for (k, v) in table {
        d.insert(k.clone(), v.as_str().unwrap().to_string());
    }
    Some(d)
}

fn device(t: &toml::Table) -> Device {
    Device {
        name: text_at(t, "name").unwrap(),
        label: label_at(t),
        kind: match text_at(t, "kind").as_deref() {
            None => Kind::default(),
            Some("shutter") => Kind::Shutter,
            Some("light") => Kind::Light,
            Some("switch") => Kind::Switch,
            Some(other) => panic!("kind {other}"),
        },
        get_state: line_at(t, "get_state").unwrap(),
        open: line_at(t, "open"),
        close: line_at(t, "close"),
        stop: line_at(t, "stop"),
        on: line_at(t, "on"),
        off: line_at(t, "off"),
        color: line_at(t, "color"),
        brightness: line_at(t, "brightness"),
        presets: tables(t, "preset")
            .iter()
            .map(|p| Preset {
                name: text_at(p, "name").unwrap(),
                label: label_at(p),
                color: text_at(p, "color"),
                cmd: line_at(p, "cmd").unwrap(),
            })
            .collect(),
        face: t.get("face").map(|_| Face::Light),
        members: line_at(t, "members").unwrap_or_default(),
        lane: text_at(t, "lane"),
        node_id: number_at(t, "node_id"),
    }
}

/// The configuration that a text holds.
fn read(text: &str) -> Config {
    let t: toml::Table = text.parse().unwrap();
    Config {
        bind: text_at(&t, "bind").unwrap_or_else(default_bind),
        devices: tables(&t, "device").iter().map(device).collect(),
        groups: tables(&t, "group")
            .iter()
            .map(|g| Group {
                name: text_at(g, "name").unwrap(),
                label: label_at(g),
                members: line_at(g, "members").unwrap(),
            })
            .collect(),
        graphs: tables(&t, "graph")
            .iter()
            .map(|g| Graph {
                name: text_at(g, "name").unwrap(),
                label: label_at(g),
                unit: text_at(g, "unit").unwrap(),
                unit_daily: text_at(g, "unit_daily"),
                chart: text_at(g, "chart"),
                query: line_at(g, "query").unwrap(),
                series_labels: labels_at(g, "series_labels"),
            })
            .collect(),
        health: t.get("health").map(|h| {
            let h = h.as_table().unwrap();
            Health {
                label: text_at(h, "label"),
                command: line_at(h, "command").unwrap(),
                labels: labels_at(h, "labels"),
            }
        }),
        execution: match t.get("exec") {
            Some(e) => ExecSettings {
                timeout_ms: number_at(e.as_table().unwrap(), "timeout_ms")
                    .unwrap_or_else(default_exec_timeout_ms),
            },
            None => ExecSettings::default(),
        },
        cache: CacheSettings {
            state_ttl_ms: t
                .get("cache")
                .and_then(|c| number_at(c.as_table().unwrap(), "state_ttl_ms"))
                .unwrap_or(1000),
        },
        push: t.get("push").map(|p| Push {
            listen: line_at(p.as_table().unwrap(), "listen").unwrap(),
        }),
        mesh: t.get("mesh").map(|m| {
            let m = m.as_table().unwrap();
            Mesh {
                label: text_at(m, "label"),
                command: line_at(m, "command").unwrap(),
                ttl_ms: number_at(m, "ttl_ms").unwrap_or(300_000),
                timeout_ms: number_at(m, "timeout_ms").unwrap_or(180_000),
                thresholds: MeshThresholds::default(),
                labels: labels_at(m, "labels"),
            }
        }),
    }
}

/// The configuration that a text holds, where it keeps the rules.
fn load(text: &str) -> Result<Config, ConfigError> {
    let config = read(text);
    config.validate()?;
    Ok(config)
}

#[test]
fn loads_valid_config() {
    let p = r##"
        bind = "127.0.0.1:9999"
        [[device]]
        name = "shutter"
        label = "シャッター"
        get_state = ["enl", "get", "192.0.2.10", "026301", "open_close_state"]
        open = ["enl", "set", "192.0.2.10", "026301", "open_close_operation", "open"]
        close = ["enl", "set", "192.0.2.10", "026301", "open_close_operation", "close"]
        "##;
    let cfg = load(p).unwrap();
    assert_eq!(cfg.bind, "127.0.0.1:9999");
    assert_eq!(cfg.devices.len(), 1);
    assert_eq!(cfg.find("shutter").unwrap().label(), "シャッター");
}

#[test]
fn rejects_empty() {
    let p = "bind = \"0.0.0.0:8080\"\n";
    assert!(matches!(load(p), Err(ConfigError::Empty)));
}

#[test]
fn alias_key_works_as_label() {
    let p = r##"
        [[device]]
        name = "shutter1"
        alias = "リビング"
        get_state = ["enl", "get", "x", "026301", "open_close_state"]
        open = ["enl", "set", "x", "026301", "open_close_operation", "open"]
        close = ["enl", "set", "x", "026301", "open_close_operation", "close"]
        "##;
    let cfg = load(p).unwrap();
    assert_eq!(cfg.find("shutter1").unwrap().label(), "リビング");
}

#[test]
fn group_parsed_and_validated() {
    let p = r##"
        [[device]]
        name = "s1"
        get_state = ["enl","get","x","026301","open_close_state"]
        open = ["enl","set","x","026301","open_close_operation","open"]
        close = ["enl","set","x","026301","open_close_operation","close"]
        [[device]]
        name = "s2"
        get_state = ["enl","get","x","026302","open_close_state"]
        open = ["enl","set","x","026302","open_close_operation","open"]
        close = ["enl","set","x","026302","open_close_operation","close"]
        [[group]]
        name = "all"
        alias = "全部"
        members = ["s1","s2"]
        "##;
    let cfg = load(p).unwrap();
    let g = cfg.find_group("all").unwrap();
    assert_eq!(g.label(), "全部");
    assert_eq!(g.members, vec!["s1", "s2"]);
}

#[test]
fn group_rejects_unknown_member() {
    let p = r##"
        [[device]]
        name = "s1"
        get_state = ["enl","get","x","026301","open_close_state"]
        open = ["enl","set","x","026301","open_close_operation","open"]
        close = ["enl","set","x","026301","open_close_operation","close"]
        [[group]]
        name = "all"
        members = ["s1","ghost"]
        "##;
    assert!(matches!(
        load(p),
        Err(ConfigError::UnknownMember { .. })
    ));
}

#[test]
fn light_device_parses() {
    let p = r##"
        [[device]]
        name  = "living_lights"
        alias = "リビング照明"
        kind  = "light"
        get_state = ["mat", "read", "--node", "5", "--cluster", "onoff", "--attribute", "on-off"]
        on  = ["mat", "on", "--node", "5"]
        off = ["mat", "off", "--node", "5"]
        [[device.preset]]
        name  = "warm"
        label = "電球色"
        color = "#ffd9a0"
        cmd   = ["mat", "color-temp", "--node", "5", "--kelvin", "2700"]
        [[device.preset]]
        name  = "pink"
        cmd   = ["mat", "color", "--node", "5", "--name", "pink"]
        "##;
    let cfg = load(p).unwrap();
    let d = cfg.find("living_lights").unwrap();
    assert_eq!(d.kind, Kind::Light);
    assert_eq!(d.label(), "リビング照明");
    assert_eq!(d.on_cmd().unwrap()[1], "on");
    assert_eq!(d.off_cmd().unwrap()[1], "off");
    assert_eq!(d.preset_cmd("warm").unwrap().last().unwrap(), "2700");
    assert!(d.preset_cmd("nope").is_none());
    assert_eq!(d.presets[0].label(), "電球色");
    assert_eq!(d.presets[1].label(), "pink");
    assert_eq!(d.presets[0].color.as_deref(), Some("#ffd9a0"));
    assert_eq!(d.presets[1].color, None);
}

#[test]
fn default_kind_is_shutter() {
    let p = r##"
        [[device]]
        name = "shutter"
        get_state = ["enl", "get", "x", "026301", "open_close_state"]
        open = ["enl", "set", "x", "026301", "open_close_operation", "open"]
        close = ["enl", "set", "x", "026301", "open_close_operation", "close"]
        "##;
    let cfg = load(p).unwrap();
    assert_eq!(cfg.find("shutter").unwrap().kind, Kind::Shutter);
}

#[test]
fn light_requires_on_off() {
    let p = r##"
        [[device]]
        name = "l1"
        kind = "light"
        get_state = ["mat", "read", "--node", "5", "-c", "onoff", "-a", "on-off"]
        on = ["mat", "on", "--node", "5"]
        "##;
    assert!(matches!(
        load(p),
        Err(ConfigError::MissingCommand { field: "off", .. })
    ));
}

#[test]
fn light_rejects_shutter_fields() {
    let p = r##"
        [[device]]
        name = "l1"
        kind = "light"
        get_state = ["mat", "read", "--node", "5", "-c", "onoff", "-a", "on-off"]
        on = ["mat", "on", "--node", "5"]
        off = ["mat", "off", "--node", "5"]
        open = ["enl", "set", "x", "026301", "open_close_operation", "open"]
        "##;
    assert!(matches!(
        load(p),
        Err(ConfigError::ForbiddenField { field: "open", .. })
    ));
}

#[test]
fn shutter_rejects_light_fields() {
    let p = r##"
        [[device]]
        name = "s1"
        get_state = ["enl", "get", "x", "026301", "open_close_state"]
        open = ["enl", "set", "x", "026301", "open_close_operation", "open"]
        close = ["enl", "set", "x", "026301", "open_close_operation", "close"]
        on = ["mat", "on", "--node", "5"]
        "##;
    assert!(matches!(
        load(p),
        Err(ConfigError::ForbiddenField { field: "on", .. })
    ));
}

#[test]
fn preset_duplicate_name_rejected() {
    let p = r##"
        [[device]]
        name = "l1"
        kind = "light"
        get_state = ["mat", "read", "--node", "5", "-c", "onoff", "-a", "on-off"]
        on = ["mat", "on", "--node", "5"]
        off = ["mat", "off", "--node", "5"]
        [[device.preset]]
        name = "warm"
        cmd = ["mat", "color-temp", "--node", "5", "--kelvin", "2700"]
        [[device.preset]]
        name = "warm"
        cmd = ["mat", "color-temp", "--node", "5", "--kelvin", "3000"]
        "##;
    assert!(matches!(
        load(p),
        Err(ConfigError::DuplicatePreset { .. })
    ));
}

#[test]
fn preset_empty_cmd_rejected() {
    let p = r##"
        [[device]]
        name = "l1"
        kind = "light"
        get_state = ["mat", "read", "--node", "5", "-c", "onoff", "-a", "on-off"]
        on = ["mat", "on", "--node", "5"]
        off = ["mat", "off", "--node", "5"]
        [[device.preset]]
        name = "warm"
        cmd = []
        "##;
    assert!(matches!(load(p), Err(ConfigError::EmptyCommand(_))));
}

#[test]
fn light_in_group_rejected() {
    let p = r##"
        [[device]]
        name = "s1"
        get_state = ["enl", "get", "x", "026301", "open_close_state"]
        open = ["enl", "set", "x", "026301", "open_close_operation", "open"]
        close = ["enl", "set", "x", "026301", "open_close_operation", "close"]
        [[device]]
        name = "l1"
        kind = "light"
        get_state = ["mat", "read", "--node", "5", "-c", "onoff", "-a", "on-off"]
        on = ["mat", "on", "--node", "5"]
        off = ["mat", "off", "--node", "5"]
        [[group]]
        name = "all"
        members = ["s1", "l1"]
        "##;
    assert!(matches!(
        load(p),
        Err(ConfigError::NonShutterInGroup { .. })
    ));
}

#[test]
fn switch_device_parses() {
    let p = r##"
        [[device]]
        name  = "fan"
        alias = "換気扇"
        kind  = "switch"
        get_state = ["casa", "get", "fan", "operation_status"]
        on  = ["casa", "set", "fan", "operation_status", "on"]
        off = ["casa", "set", "fan", "operation_status", "off"]
        "##;
    let cfg = load(p).unwrap();
    let d = cfg.find("fan").unwrap();
    assert_eq!(d.kind, Kind::Switch);
    assert_eq!(d.label(), "換気扇");
    assert_eq!(d.on_cmd().unwrap()[1], "set");
    assert_eq!(d.off_cmd().unwrap().last().unwrap(), "off");
}

#[test]
fn switch_requires_on_off() {
    let p = r##"
        [[device]]
        name = "fan"
        kind = "switch"
        get_state = ["casa", "get", "fan", "operation_status"]
        on  = ["casa", "set", "fan", "operation_status", "on"]
        "##;
    assert!(matches!(
        load(p),
        Err(ConfigError::MissingCommand { field: "off", .. })
    ));
}

#[test]
fn switch_rejects_shutter_and_light_fields() {
    let p = r##"
        [[device]]
        name = "fan"
        kind = "switch"
        get_state = ["casa", "get", "fan", "operation_status"]
        on  = ["casa", "set", "fan", "operation_status", "on"]
        off = ["casa", "set", "fan", "operation_status", "off"]
        open = ["casa", "set", "fan", "x", "open"]
        "##;
    assert!(matches!(
        load(p),
        Err(ConfigError::ForbiddenField { field: "open", .. })
    ));
}

#[test]
fn switch_in_group_rejected() {
    let p = r##"
        [[device]]
        name = "s1"
        get_state = ["enl", "get", "x", "026301", "open_close_state"]
        open = ["enl", "set", "x", "026301", "open_close_operation", "open"]
        close = ["enl", "set", "x", "026301", "open_close_operation", "close"]
        [[device]]
        name = "fan"
        kind = "switch"
        get_state = ["casa", "get", "fan", "operation_status"]
        on  = ["casa", "set", "fan", "operation_status", "on"]
        off = ["casa", "set", "fan", "operation_status", "off"]
        [[group]]
        name = "all"
        members = ["s1", "fan"]
        "##;
    assert!(matches!(
        load(p),
        Err(ConfigError::NonShutterInGroup { .. })
    ));
}

#[test]
fn switch_face_light_parses() {
    let p = r##"
        [[device]]
        name = "fan_light"
        kind = "switch"
        face = "light"
        get_state = ["casa", "get", "fan_light", "power"]
        on  = ["casa", "on",  "fan_light"]
        off = ["casa", "off", "fan_light"]
        "##;
    let cfg = load(p).unwrap();
    assert_eq!(cfg.find("fan_light").unwrap().face, Some(Face::Light));
}

#[test]
fn switch_without_face_is_none() {
    let p = r##"
        [[device]]
        name = "fan"
        kind = "switch"
        get_state = ["casa", "get", "fan", "power"]
        on  = ["casa", "on",  "fan"]
        off = ["casa", "off", "fan"]
        "##;
    let cfg = load(p).unwrap();
    assert_eq!(cfg.find("fan").unwrap().face, None);
}

#[test]
fn shutter_rejects_face() {
    let p = r##"
        [[device]]
        name = "s1"
        face = "light"
        get_state = ["enl", "get", "x", "026301", "open_close_state"]
        open = ["enl", "set", "x", "026301", "open_close_operation", "open"]
        close = ["enl", "set", "x", "026301", "open_close_operation", "close"]
        "##;
    assert!(matches!(
        load(p),
        Err(ConfigError::ForbiddenField { field: "face", .. })
    ));
}

#[test]
fn light_rejects_face() {
    let p = r##"
        [[device]]
        name = "l1"
        kind = "light"
        face = "light"
        get_state = ["mat", "read", "--node", "5", "-c", "onoff", "-a", "on-off"]
        on  = ["mat", "on",  "--node", "5"]
        off = ["mat", "off", "--node", "5"]
        "##;
    assert!(matches!(
        load(p),
        Err(ConfigError::ForbiddenField { field: "face", .. })
    ));
}

#[test]
fn default_label_is_name() {
    let d = Device {
        name: "x".into(),
        label: None,
        kind: Kind::Shutter,
        get_state: vec!["a".into()],
        open: Some(vec!["a".into()]),
        close: Some(vec!["a".into()]),
        stop: None,
        on: None,
        off: None,
        color: None,
        brightness: None,
        presets: vec![],
        face: None,
        members: vec![],
        lane: None,
        node_id: None,
    };
    assert_eq!(d.label(), "x");
    assert!(d.stop_cmd().is_none());
}

#[test]
fn device_lane_defaults_to_device_name() {
    let c = read(
        r#"
        [[device]]
        name = "s1"
        get_state = ["true"]
        open = ["true"]
        close = ["true"]

        [[device]]
        name = "s2"
        lane = "echonet"
        get_state = ["true"]
        open = ["true"]
        close = ["true"]
        "#,
    );
    assert_eq!(c.devices[0].exec_lane(), "s1");
    assert_eq!(c.devices[1].exec_lane(), "echonet");
}

#[test]
fn exec_timeout_defaults_to_15000() {
    let c = read("");
    assert_eq!(c.execution.timeout_ms, 15_000);

    let c = read("[exec]\ntimeout_ms = 3000\n");
    assert_eq!(c.execution.timeout_ms, 3_000);
}

#[test]
fn stop_optional_and_parsed() {
    let p = r##"
        [[device]]
        name = "shutter"
        get_state = ["enl", "get", "192.0.2.10", "026301", "open_close_state"]
        open = ["enl", "set", "192.0.2.10", "026301", "open_close_operation", "open"]
        close = ["enl", "set", "192.0.2.10", "026301", "open_close_operation", "close"]
        stop = ["enl", "set", "192.0.2.10", "026301", "open_close_operation", "stop"]
        "##;
    let cfg = load(p).unwrap();
    let d = cfg.find("shutter").unwrap();
    assert_eq!(d.stop_cmd().unwrap().last().unwrap(), "stop");
}

#[test]
fn rejects_empty_stop() {
    let p = r##"
        [[device]]
        name = "shutter"
        get_state = ["enl", "get", "x", "026301", "open_close_state"]
        open = ["enl", "set", "x", "026301", "open_close_operation", "open"]
        close = ["enl", "set", "x", "026301", "open_close_operation", "close"]
        stop = []
        "##;
    assert!(matches!(
        load(p),
        Err(ConfigError::EmptyCommand(_))
    ));
}

#[test]
fn device_in_multiple_groups_rejected() {
    let p = r##"
        [[device]]
        name = "shutter"
        get_state = ["enl", "get", "x", "026301", "open_close_state"]
        open = ["enl", "set", "x", "026301", "open_close_operation", "open"]
        close = ["enl", "set", "x", "026301", "open_close_operation", "close"]
        [[group]]
        name = "group1"
        members = ["shutter"]
        [[group]]
        name = "group2"
        members = ["shutter"]
        "##;
    assert!(matches!(
        load(p),
        Err(ConfigError::DuplicateGroupMember { .. })
    ));
}

#[test]
fn device_duplicate_within_group_rejected() {
    let p = r##"
        [[device]]
        name = "shutter"
        get_state = ["enl", "get", "x", "026301", "open_close_state"]
        open = ["enl", "set", "x", "026301", "open_close_operation", "open"]
        close = ["enl", "set", "x", "026301", "open_close_operation", "close"]
        [[group]]
        name = "all"
        members = ["shutter", "shutter"]
        "##;
    assert!(matches!(
        load(p),
        Err(ConfigError::DuplicateGroupMember { .. })
    ));
}

#[test]
fn color_template_parses() {
    let p = r##"
        [[device]]
        name = "l1"
        kind = "light"
        get_state = ["mat", "read", "--node", "5", "-c", "onoff", "-a", "on-off"]
        on = ["mat", "on", "--node", "5"]
        off = ["mat", "off", "--node", "5"]
        color = ["mat", "color", "--node", "5", "--rgb", "{color}"]
        "##;
    let cfg = load(p).unwrap();
    let d = cfg.find("l1").unwrap();
    assert_eq!(d.color_cmd().unwrap().last().unwrap(), "{color}");
}

#[test]
fn color_placeholder_zero_rejected() {
    let p = r##"
        [[device]]
        name = "l1"
        kind = "light"
        get_state = ["mat", "read", "--node", "5", "-c", "onoff", "-a", "on-off"]
        on = ["mat", "on", "--node", "5"]
        off = ["mat", "off", "--node", "5"]
        color = ["mat", "color", "--node", "5", "--rgb", "red"]
        "##;
    assert!(matches!(
        load(p),
        Err(ConfigError::ColorPlaceholder { count: 0, .. })
    ));
}

#[test]
fn color_placeholder_two_rejected() {
    let p = r##"
        [[device]]
        name = "l1"
        kind = "light"
        get_state = ["mat", "read", "--node", "5", "-c", "onoff", "-a", "on-off"]
        on = ["mat", "on", "--node", "5"]
        off = ["mat", "off", "--node", "5"]
        color = ["mat", "color", "--node", "5", "--rgb", "{color}", "--x", "{color}"]
        "##;
    assert!(matches!(
        load(p),
        Err(ConfigError::ColorPlaceholder { count: 2, .. })
    ));
}

#[test]
fn color_on_shutter_rejected() {
    let p = r##"
        [[device]]
        name = "s1"
        get_state = ["enl", "get", "x", "026301", "open_close_state"]
        open = ["enl", "set", "x", "026301", "open_close_operation", "open"]
        close = ["enl", "set", "x", "026301", "open_close_operation", "close"]
        color = ["mat", "color", "--node", "5", "--rgb", "{color}"]
        "##;
    assert!(matches!(
        load(p),
        Err(ConfigError::ForbiddenField { field: "color", .. })
    ));
}

#[test]
fn color_empty_rejected() {
    let p = r##"
        [[device]]
        name = "l1"
        kind = "light"
        get_state = ["mat", "read", "--node", "5", "-c", "onoff", "-a", "on-off"]
        on = ["mat", "on", "--node", "5"]
        off = ["mat", "off", "--node", "5"]
        color = []
        "##;
    assert!(matches!(load(p), Err(ConfigError::EmptyCommand(_))));
}

#[test]
fn brightness_template_parses() {
    let p = r##"
        [[device]]
        name = "l1"
        kind = "light"
        get_state = ["mat", "read", "--node", "5", "-c", "onoff", "-a", "on-off"]
        on = ["mat", "on", "--node", "5"]
        off = ["mat", "off", "--node", "5"]
        brightness = ["mat", "level", "--node", "5", "--percent", "{brightness}"]
        "##;
    let cfg = load(p).unwrap();
    let d = cfg.find("l1").unwrap();
    assert_eq!(d.brightness_cmd().unwrap().last().unwrap(), "{brightness}");
}

#[test]
fn brightness_placeholder_zero_rejected() {
    let p = r##"
        [[device]]
        name = "l1"
        kind = "light"
        get_state = ["mat", "read", "--node", "5", "-c", "onoff", "-a", "on-off"]
        on = ["mat", "on", "--node", "5"]
        off = ["mat", "off", "--node", "5"]
        brightness = ["mat", "level", "--node", "5", "--percent", "50"]
        "##;
    assert!(matches!(
        load(p),
        Err(ConfigError::BrightnessPlaceholder { count: 0, .. })
    ));
}

#[test]
fn brightness_placeholder_two_rejected() {
    let p = r##"
        [[device]]
        name = "l1"
        kind = "light"
        get_state = ["mat", "read", "--node", "5", "-c", "onoff", "-a", "on-off"]
        on = ["mat", "on", "--node", "5"]
        off = ["mat", "off", "--node", "5"]
        brightness = ["mat", "level", "--node", "5", "--percent", "{brightness}", "--x", "{brightness}"]
        "##;
    assert!(matches!(
        load(p),
        Err(ConfigError::BrightnessPlaceholder { count: 2, .. })
    ));
}

#[test]
fn brightness_on_shutter_rejected() {
    let p = r##"
        [[device]]
        name = "s1"
        get_state = ["enl", "get", "x", "026301", "open_close_state"]
        open = ["enl", "set", "x", "026301", "open_close_operation", "open"]
        close = ["enl", "set", "x", "026301", "open_close_operation", "close"]
        brightness = ["mat", "level", "--node", "5", "--percent", "{brightness}"]
        "##;
    assert!(matches!(
        load(p),
        Err(ConfigError::ForbiddenField { field: "brightness", .. })
    ));
}

#[test]
fn brightness_empty_rejected() {
    let p = r##"
        [[device]]
        name = "l1"
        kind = "light"
        get_state = ["mat", "read", "--node", "5", "-c", "onoff", "-a", "on-off"]
        on = ["mat", "on", "--node", "5"]
        off = ["mat", "off", "--node", "5"]
        brightness = []
        "##;
    assert!(matches!(load(p), Err(ConfigError::EmptyCommand(_))));
}

#[test]
fn graph_parses() {
    let p = r##"
        [[device]]
        name = "s1"
        get_state = ["enl", "get", "x", "026301", "open_close_state"]
        open = ["enl", "set", "x", "026301", "open_close_operation", "open"]
        close = ["enl", "set", "x", "026301", "open_close_operation", "close"]
        [[graph]]
        name       = "generation"
        label      = "太陽光発電"
        unit       = "W"
        unit_daily = "kWh"
        query      = ["embalse-query", "generation", "{period}"]
        [[graph]]
        name  = "co2"
        unit  = "ppm"
        query = ["embalse-query", "co2", "{period}"]
        "##;
    let cfg = load(p).unwrap();
    let g = cfg.find_graph("generation").unwrap();
    assert_eq!(g.label(), "太陽光発電");
    assert_eq!(g.unit_for("today"), "W");
    assert_eq!(g.unit_for("week"), "kWh");
    assert_eq!(g.unit_for("month"), "kWh");
    let c = cfg.find_graph("co2").unwrap();
    assert_eq!(c.label(), "co2");
    assert_eq!(c.unit_for("week"), "ppm");
    assert!(cfg.find_graph("nope").is_none());
}

#[test]
fn graph_zero_entries_ok() {
    let p = r##"
        [[device]]
        name = "s1"
        get_state = ["enl", "get", "x", "026301", "open_close_state"]
        open = ["enl", "set", "x", "026301", "open_close_operation", "open"]
        close = ["enl", "set", "x", "026301", "open_close_operation", "close"]
        "##;
    let cfg = load(p).unwrap();
    assert!(cfg.graphs.is_empty());
}

#[test]
fn graph_duplicate_name_rejected() {
    let p = r##"
        [[device]]
        name = "s1"
        get_state = ["enl", "get", "x", "026301", "open_close_state"]
        open = ["enl", "set", "x", "026301", "open_close_operation", "open"]
        close = ["enl", "set", "x", "026301", "open_close_operation", "close"]
        [[graph]]
        name = "g"
        unit = "W"
        query = ["embalse-query", "g", "{period}"]
        [[graph]]
        name = "g"
        unit = "W"
        query = ["embalse-query", "g", "{period}"]
        "##;
    assert!(matches!(
        load(p),
        Err(ConfigError::DuplicateGraph(_))
    ));
}

#[test]
fn graph_empty_query_rejected() {
    let p = r##"
        [[device]]
        name = "s1"
        get_state = ["enl", "get", "x", "026301", "open_close_state"]
        open = ["enl", "set", "x", "026301", "open_close_operation", "open"]
        close = ["enl", "set", "x", "026301", "open_close_operation", "close"]
        [[graph]]
        name = "g"
        unit = "W"
        query = []
        "##;
    assert!(matches!(
        load(p),
        Err(ConfigError::EmptyGraphQuery(_))
    ));
}

#[test]
fn graph_period_placeholder_zero_rejected() {
    let p = r##"
        [[device]]
        name = "s1"
        get_state = ["enl", "get", "x", "026301", "open_close_state"]
        open = ["enl", "set", "x", "026301", "open_close_operation", "open"]
        close = ["enl", "set", "x", "026301", "open_close_operation", "close"]
        [[graph]]
        name = "g"
        unit = "W"
        query = ["embalse-query", "g", "today"]
        "##;
    assert!(matches!(
        load(p),
        Err(ConfigError::PeriodPlaceholder { count: 0, .. })
    ));
}

#[test]
fn graph_period_placeholder_two_rejected() {
    let p = r##"
        [[device]]
        name = "s1"
        get_state = ["enl", "get", "x", "026301", "open_close_state"]
        open = ["enl", "set", "x", "026301", "open_close_operation", "open"]
        close = ["enl", "set", "x", "026301", "open_close_operation", "close"]
        [[graph]]
        name = "g"
        unit = "W"
        query = ["embalse-query", "{period}", "{period}"]
        "##;
    assert!(matches!(
        load(p),
        Err(ConfigError::PeriodPlaceholder { count: 2, .. })
    ));
}

#[test]
fn graph_series_labels_parses() {
    let p = r##"
        [[device]]
        name = "s1"
        get_state = ["enl", "get", "x", "026301", "open_close_state"]
        open = ["enl", "set", "x", "026301", "open_close_operation", "open"]
        close = ["enl", "set", "x", "026301", "open_close_operation", "close"]
        [[graph]]
        name  = "plain"
        unit  = "W"
        query = ["embalse-query", "plain", "{period}"]
        [[graph]]
        name  = "machine"
        label = "jarvis"
        unit  = "%"
        query = ["embalse-query", "machine", "{period}"]
        [graph.series_labels]
        cpu_used_pct = "CPU (%)"
        cpu_temp_c   = "温度 (℃)"
        "##;
    let cfg = load(p).unwrap();
    let g = cfg.find_graph("machine").unwrap();
    let m = g.series_labels.as_ref().unwrap();
    assert_eq!(m.get("cpu_used_pct").unwrap(), "CPU (%)");
    assert_eq!(m.get("cpu_temp_c").unwrap(), "温度 (℃)");
    assert!(cfg.find_graph("plain").unwrap().series_labels.is_none());
}

#[test]
fn health_parses() {
    let p = r##"
        [[device]]
        name = "s1"
        get_state = ["enl", "get", "x", "026301", "open_close_state"]
        open = ["enl", "set", "x", "026301", "open_close_operation", "open"]
        close = ["enl", "set", "x", "026301", "open_close_operation", "close"]
        [health]
        label   = "jarvis"
        command = ["embalse-query", "health"]
        [health.labels]
        cpu_used_pct = "CPU"
        "##;
    let cfg = load(p).unwrap();
    let h = cfg.health.as_ref().unwrap();
    assert_eq!(h.label.as_deref(), Some("jarvis"));
    assert_eq!(h.command, vec!["embalse-query", "health"]);
    assert_eq!(h.labels.as_ref().unwrap().get("cpu_used_pct").unwrap(), "CPU");
}

#[test]
fn health_absent_is_none() {
    let p = r##"
        [[device]]
        name = "s1"
        get_state = ["enl", "get", "x", "026301", "open_close_state"]
        open = ["enl", "set", "x", "026301", "open_close_operation", "open"]
        close = ["enl", "set", "x", "026301", "open_close_operation", "close"]
        "##;
    let cfg = load(p).unwrap();
    assert!(cfg.health.is_none());
}

#[test]
fn health_empty_command_rejected() {
    let p = r##"
        [[device]]
        name = "s1"
        get_state = ["enl", "get", "x", "026301", "open_close_state"]
        open = ["enl", "set", "x", "026301", "open_close_operation", "open"]
        close = ["enl", "set", "x", "026301", "open_close_operation", "close"]
        [health]
        command = []
        "##;
    assert!(matches!(
        load(p),
        Err(ConfigError::EmptyHealthCommand)
    ));
}

fn light_toml(name: &str, extra: &str) -> String {
    format!(
        r##"
        [[device]]
        name = "{name}"
        kind = "light"
        get_state = ["mat","read"]
        on  = ["mat","on"]
        off = ["mat","off"]
        {extra}
        "##
    )
}

#[test]
fn light_members_parse() {
    let body = format!(
        "{}{}{}",
        light_toml("parent", r#"members = ["kid1", "kid2"]"#),
        light_toml("kid1", ""),
        light_toml("kid2", ""),
    );
    let p = body.as_str();
    let cfg = load(p).unwrap();
    assert_eq!(cfg.find("parent").unwrap().members, vec!["kid1", "kid2"]);
    assert!(cfg.find("kid1").unwrap().members.is_empty());
}

#[test]
fn light_members_reject_unknown() {
    let body = light_toml("parent", r#"members = ["ghost"]"#);
    let p = body.as_str();
    assert!(matches!(
        load(p),
        Err(ConfigError::UnknownLightMember { .. })
    ));
}

#[test]
fn light_members_reject_non_light() {
    let body = format!(
        "{}{}",
        light_toml("parent", r#"members = ["sw"]"#),
        r##"
        [[device]]
        name = "sw"
        kind = "switch"
        get_state = ["casa","get"]
        on  = ["casa","on"]
        off = ["casa","off"]
        "##
    );
    let p = body.as_str();
    assert!(matches!(
        load(p),
        Err(ConfigError::NonLightMember { .. })
    ));
}

#[test]
fn light_members_reject_nested() {
    let body = format!(
        "{}{}{}",
        light_toml("grandparent", r#"members = ["parent"]"#),
        light_toml("parent", r#"members = ["kid"]"#),
        light_toml("kid", ""),
    );
    let p = body.as_str();
    assert!(matches!(
        load(p),
        Err(ConfigError::NestedLightMembers { .. })
    ));
}

#[test]
fn light_members_reject_duplicate_membership() {
    let body = format!(
        "{}{}{}",
        light_toml("p1", r#"members = ["kid"]"#),
        light_toml("p2", r#"members = ["kid"]"#),
        light_toml("kid", ""),
    );
    let p = body.as_str();
    assert!(matches!(
        load(p),
        Err(ConfigError::DuplicateLightMember { .. })
    ));
}

#[test]
fn light_members_reject_same_parent_duplicate() {
    let body = format!(
        "{}{}",
        light_toml("parent", r#"members = ["kid", "kid"]"#),
        light_toml("kid", ""),
    );
    let p = body.as_str();
    assert!(matches!(
        load(p),
        Err(ConfigError::DuplicateLightMember { .. })
    ));
}

#[test]
fn light_members_reject_self_reference() {
    let body = light_toml("parent", r#"members = ["parent"]"#);
    let p = body.as_str();
    assert!(matches!(
        load(p),
        Err(ConfigError::NestedLightMembers { .. })
    ));
}

#[test]
fn light_members_forbidden_on_shutter() {
    let p = r##"
        [[device]]
        name = "s1"
        members = ["s2"]
        get_state = ["enl","get","x","026301","open_close_state"]
        open = ["enl","set","x","026301","open_close_operation","open"]
        close = ["enl","set","x","026301","open_close_operation","close"]
        [[device]]
        name = "s2"
        get_state = ["enl","get","x","026302","open_close_state"]
        open = ["enl","set","x","026302","open_close_operation","open"]
        close = ["enl","set","x","026302","open_close_operation","close"]
        "##;
    assert!(matches!(
        load(p),
        Err(ConfigError::ForbiddenField { field: "members", .. })
    ));
}

const SHUTTER: &str = r#"
    [[device]]
    name = "s1"
    get_state = ["get"]
    open = ["open"]
    close = ["close"]
"#;

fn message(text: &str) -> String {
    load(text).err().unwrap().message()
}

#[test]
fn words_for_errors() {
    assert_eq!(
        ConfigError::Read("x".to_string()).message(),
        "config 読み込み失敗: x"
    );
    assert_eq!(
        ConfigError::Parse("y".to_string()).message(),
        "config パース失敗: y"
    );
    assert_eq!(message(""), "config に [[device]] が 1 つもない");
    assert_eq!(
        message(&format!("{SHUTTER}{SHUTTER}")),
        "device 名が重複: s1"
    );
    assert_eq!(
        message("[[device]]\nname = \"s1\"\nget_state = []"),
        "device s1: コマンド配列が空"
    );
    assert_eq!(
        message(&format!("{SHUTTER}[[group]]\nname = \"g\"\nmembers = []")),
        "group g: members が空"
    );
    assert_eq!(
        message(&format!("{SHUTTER}[[group]]\nname = \"g\"\nmembers = [\"no\"]")),
        "group g: 未知の device を参照: no"
    );
    let group = "[[group]]\nname = \"g\"\nmembers = [\"s1\"]\n";
    assert_eq!(
        message(&format!("{SHUTTER}{group}{group}")),
        "group 名が重複: g"
    );
    assert_eq!(
        message("[[device]]\nname = \"s1\"\nget_state = [\"x\"]"),
        "device s1: open がない（この kind では必須）"
    );
    assert_eq!(
        message(&format!("{SHUTTER}on = [\"x\"]")),
        "device s1: on はこの kind では指定できない"
    );
    assert_eq!(
        message(&format!("{SHUTTER}[[group]]\nname = \"g\"\nmembers = [\"s1\", \"s1\"]")),
        "device s1: 複数のグループに所属できない（UI が個別行をデバイスごとに 1 つしか持てないため）"
    );
    assert_eq!(
        message(&format!("{SHUTTER}[[graph]]\nname = \"g\"\nunit = \"W\"\nquery = [\"x\"]")),
        "graph g: query は {period} プレースホルダをちょうど 1 個含む必要がある（現在 0 個）"
    );
    assert_eq!(
        message(&format!("{SHUTTER}[health]\ncommand = []")),
        "health: command が空"
    );
    assert_eq!(
        message(&format!("{SHUTTER}[push]\nlisten = []")),
        "push: listen が空"
    );
    assert_eq!(
        message(&format!("{SHUTTER}[mesh]\ncommand = []")),
        "mesh: command が空"
    );
}

#[test]
fn words_for_errors_of_lights() {
    let light = |name: &str, rest: &str| {
        format!(
            "[[device]]\nname = \"{name}\"\nkind = \"light\"\nget_state = [\"g\"]\non = [\"on\"]\noff = [\"off\"]\n{rest}\n"
        )
    };
    let preset = "[[device.preset]]\nname = \"p\"\ncmd = [\"x\"]\n";
    assert_eq!(
        message(&light("l", &format!("{preset}{preset}"))),
        "device l: preset 名が重複: p"
    );
    assert_eq!(
        message(&light("l", "color = [\"{color}{color}\", \"{color}\"]")),
        "device l: color テンプレは {color} プレースホルダをちょうど 1 個含む必要がある（現在 3 個）"
    );
    assert_eq!(
        message(&light("l", "brightness = [\"x\"]")),
        "device l: brightness テンプレは {brightness} プレースホルダをちょうど 1 個含む必要がある（現在 0 個）"
    );
    assert_eq!(
        message(&light("l", "members = [\"no\"]")),
        "device l: members が未知の device を参照: no"
    );
    assert_eq!(
        message(&format!("{}{SHUTTER}", light("l", "members = [\"s1\"]"))),
        "device l: members に light 以外は入れられない: s1"
    );
    assert_eq!(
        message(&light("l", "members = [\"l\"]")),
        "device l: member l は自身が members を持つため入れ子にできない"
    );
    assert_eq!(
        message(&format!(
            "{}{}",
            light("l", "members = [\"k\", \"k\"]"),
            light("k", "")
        )),
        "device k: members に複数回指定されている（同一グループ内の重複または複数グループへの所属）"
    );
    assert_eq!(
        message(&format!(
            "{}[[group]]\nname = \"g\"\nmembers = [\"l\"]",
            light("l", "")
        )),
        "group g: シャッター以外はグループに入れられない: l"
    );
}

#[test]
fn words_for_errors_of_graphs() {
    let graph = "[[graph]]\nname = \"g\"\nunit = \"W\"\nquery = [\"q\", \"{period}\"]\n";
    assert_eq!(
        message(&format!("{SHUTTER}{graph}{graph}")),
        "graph 名が重複: g"
    );
    assert_eq!(
        message(&format!("{SHUTTER}[[graph]]\nname = \"g\"\nunit = \"W\"\nquery = []")),
        "graph g: query が空"
    );
}

#[test]
fn required_and_forbidden_commands() {
    assert!(require("d", "on", &Some(vec!["x".to_string()])).is_ok());
    assert!(matches!(
        require("d", "on", &Some(vec![])),
        Err(ConfigError::EmptyCommand(n)) if n == "d"
    ));
    assert!(matches!(
        require("d", "on", &None),
        Err(ConfigError::MissingCommand { device, field }) if device == "d" && field == "on"
    ));
    assert!(forbid("d", "on", &None).is_ok());
    assert!(matches!(
        forbid("d", "on", &Some(vec![])),
        Err(ConfigError::ForbiddenField { device, field }) if device == "d" && field == "on"
    ));
}

#[test]
fn devices_are_checked_before_members_and_groups() {
    let p = format!(
        "[[device]]\nname = \"s1\"\nget_state = [\"g\"]\nopen = [\"o\"]\nclose = [\"c\"]\nmembers = [\"no\"]\n[[device]]\nname = \"s2\"\nget_state = []\n"
    );
    assert!(matches!(
        load(&p),
        Err(ConfigError::EmptyCommand(n)) if n == "s2"
    ));
}

#[test]
fn lights_without_a_node_are_named_where_lights_are_pushed() {
    let lights = r#"
        [[device]]
        name = "a"
        kind = "light"
        get_state = ["g"]
        on = ["on"]
        off = ["off"]
        [[device]]
        name = "b"
        kind = "light"
        node_id = 5
        get_state = ["g"]
        on = ["on"]
        off = ["off"]
        [[device]]
        name = "c"
        get_state = ["g"]
        open = ["o"]
        close = ["c"]
    "#;
    assert!(warn_missing_node_ids(&read(lights)).is_empty());
    let pushed = format!("[push]\nlisten = [\"x\"]\n{lights}");
    assert_eq!(warn_missing_node_ids(&read(&pushed)), vec!["a"]);
}

#[test]
fn freshness_of_the_mesh() {
    assert_eq!(read("").mesh_ttl_ms(), 0);
    assert_eq!(
        read("[mesh]\ncommand = [\"m\"]\nttl_ms = 7").mesh_ttl_ms(),
        7
    );
    assert_eq!(
        MeshThresholds::default(),
        MeshThresholds { lqi_fair: 2, lqi_weak: 1, fer_weak: 30 }
    );
}
