use iot_gateway::config::{
    BrokerPatch, Config, ConfigPatch, DbPatch, ModbusPatch, MqttPatch,
};

fn empty_patch() -> ConfigPatch {
    ConfigPatch {
        broker: BrokerPatch { host: None, port: None },
        modbus: ModbusPatch { host: None, port: None, register: None, interval_ms: None },
        mqtt: MqttPatch { client_id: None, topic: None, sub_topic: None },
        db: DbPatch { path: None },
    }
}

/// The patch a TOML document describes, read key by key. A key of the wrong
/// type or out of range fails the test, as it fails the program's parse.
fn patch_from_toml(raw: &str) -> ConfigPatch {
    let table: toml::Table = toml::from_str(raw).expect("valid toml");
    let section = |name: &str| {
        table.get(name).map(|v| v.as_table().expect("a section is a table").clone())
    };
    let text = |sec: &Option<toml::Table>, key: &str| {
        sec.as_ref()
            .and_then(|t| t.get(key))
            .map(|v| String::from(v.as_str().expect("a text key holds a string")))
    };
    let int = |sec: &Option<toml::Table>, key: &str| {
        sec.as_ref()
            .and_then(|t| t.get(key))
            .map(|v| v.as_integer().expect("a numeric key holds an integer"))
    };
    let broker = section("broker");
    let modbus = section("modbus");
    let mqtt = section("mqtt");
    let db = section("db");
    ConfigPatch {
        broker: BrokerPatch {
            host: text(&broker, "host"),
            port: int(&broker, "port").map(|v| u16::try_from(v).expect("port fits u16")),
        },
        modbus: ModbusPatch {
            host: text(&modbus, "host"),
            port: int(&modbus, "port").map(|v| u16::try_from(v).expect("port fits u16")),
            register: int(&modbus, "register").map(|v| u16::try_from(v).expect("register fits u16")),
            interval_ms: int(&modbus, "interval_ms").map(|v| u64::try_from(v).expect("interval fits u64")),
        },
        mqtt: MqttPatch {
            client_id: text(&mqtt, "client_id"),
            topic: text(&mqtt, "topic"),
            sub_topic: text(&mqtt, "sub_topic"),
        },
        db: DbPatch { path: text(&db, "path") },
    }
}

#[test]
fn default_config_matches_documented_ports() {
    let cfg = Config::default();
    assert_eq!(cfg.broker.port, 1883);
    assert_eq!(cfg.modbus.port, 5020);
    assert_eq!(cfg.mqtt.topic, "iot/site1/gateway1/data");
}

#[test]
fn parse_sample_toml() {
    let raw = r#"
        [broker]
        host = "10.0.0.1"
        port = 2883

        [modbus]
        port = 5502
        interval_ms = 500
    "#;
    let cfg = Config::from_patch(patch_from_toml(raw));
    assert_eq!(cfg.broker.host, "10.0.0.1");
    assert_eq!(cfg.broker.port, 2883);
    assert_eq!(cfg.modbus.port, 5502);
    assert_eq!(cfg.modbus.interval_ms, 500);
    // untouched fields fall back to defaults
    assert_eq!(cfg.db.path, "data/iot_gateway.db");
}

#[test]
fn default_config_has_every_documented_value() {
    let cfg = Config::default();
    assert_eq!(cfg.broker.host, "127.0.0.1");
    assert_eq!(cfg.broker.port, 1883);
    assert_eq!(cfg.modbus.host, "127.0.0.1");
    assert_eq!(cfg.modbus.port, 5020);
    assert_eq!(cfg.modbus.register, 0);
    assert_eq!(cfg.modbus.interval_ms, 2000);
    assert_eq!(cfg.mqtt.client_id, "iot-gateway-collector");
    assert_eq!(cfg.mqtt.topic, "iot/site1/gateway1/data");
    assert_eq!(cfg.mqtt.sub_topic, "iot/#");
    assert_eq!(cfg.db.path, "data/iot_gateway.db");
}

#[test]
fn empty_file_resolves_to_defaults() {
    let cfg = Config::from_patch(empty_patch());
    let def = Config::default();
    assert_eq!(cfg.broker.host, def.broker.host);
    assert_eq!(cfg.broker.port, def.broker.port);
    assert_eq!(cfg.modbus.host, def.modbus.host);
    assert_eq!(cfg.modbus.port, def.modbus.port);
    assert_eq!(cfg.modbus.register, def.modbus.register);
    assert_eq!(cfg.modbus.interval_ms, def.modbus.interval_ms);
    assert_eq!(cfg.mqtt.client_id, def.mqtt.client_id);
    assert_eq!(cfg.mqtt.topic, def.mqtt.topic);
    assert_eq!(cfg.mqtt.sub_topic, def.mqtt.sub_topic);
    assert_eq!(cfg.db.path, def.db.path);
}

#[test]
fn every_given_key_overrides_its_default() {
    let raw = r#"
        [broker]
        host = "0.0.0.0"
        port = 1
        [modbus]
        host = "192.168.1.20"
        port = 502
        register = 7
        interval_ms = 10
        [mqtt]
        client_id = "c"
        topic = "t"
        sub_topic = "s/#"
        [db]
        path = "/tmp/h.db"
    "#;
    let cfg = Config::from_patch(patch_from_toml(raw));
    assert_eq!(cfg.broker.host, "0.0.0.0");
    assert_eq!(cfg.broker.port, 1);
    assert_eq!(cfg.modbus.host, "192.168.1.20");
    assert_eq!(cfg.modbus.port, 502);
    assert_eq!(cfg.modbus.register, 7);
    assert_eq!(cfg.modbus.interval_ms, 10);
    assert_eq!(cfg.mqtt.client_id, "c");
    assert_eq!(cfg.mqtt.topic, "t");
    assert_eq!(cfg.mqtt.sub_topic, "s/#");
    assert_eq!(cfg.db.path, "/tmp/h.db");
}

#[test]
fn a_section_given_in_part_keeps_its_other_defaults() {
    let mut patch = empty_patch();
    patch.mqtt.topic = Some(String::from("plant/line1"));
    let cfg = Config::from_patch(patch);
    assert_eq!(cfg.mqtt.topic, "plant/line1");
    assert_eq!(cfg.mqtt.client_id, "iot-gateway-collector");
    assert_eq!(cfg.mqtt.sub_topic, "iot/#");
}
