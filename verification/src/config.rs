//! Runtime configuration of the gateway: the built-in defaults and the rule
//! that fills every setting a configuration file leaves out with its default.

use vstd::prelude::*;

verus! {

/// What an optional text setting resolves to: the given text, or the default.
pub open spec fn text_or(setting: Option<String>, default: Seq<char>) -> Seq<char> {
    match setting {
        Some(s) => s@,
        None => default,
    }
}

/// What an optional numeric setting resolves to: the given number, or the default.
pub open spec fn number_or<T>(setting: Option<T>, default: T) -> T {
    match setting {
        Some(v) => v,
        None => default,
    }
}

fn resolve_text(setting: Option<String>, default: &str) -> (r: String)
    ensures
        r@ == text_or(setting, default@),
{
    match setting {
        Some(s) => s,
        None => String::from_str(default),
    }
}

// ---------------------------------------------------------------------------
// Broker
// ---------------------------------------------------------------------------

/// Bind address of the embedded MQTT broker.
#[derive(Debug, Clone)]
pub struct Broker {
    pub host: String,
    pub port: u16,
}

pub struct BrokerView {
    pub host: Seq<char>,
    pub port: u16,
}

impl View for Broker {
    type V = BrokerView;

    open spec fn view(&self) -> BrokerView {
        BrokerView { host: self.host@, port: self.port }
    }
}

/// The broker section as a configuration file gives it: each key may be absent.
#[derive(Debug, Clone)]
pub struct BrokerPatch {
    pub host: Option<String>,
    pub port: Option<u16>,
}

pub open spec fn default_broker() -> BrokerView {
    BrokerView { host: "127.0.0.1"@, port: 1883 }
}

pub open spec fn resolved_broker(p: BrokerPatch) -> BrokerView {
    BrokerView {
        host: text_or(p.host, default_broker().host),
        port: number_or(p.port, default_broker().port),
    }
}

impl Default for Broker {
    /// The built-in broker address, used where the configuration file says nothing.
    fn default() -> (r: Broker)
        ensures
            r@ == default_broker(),
    {
        Broker { host: String::from_str("127.0.0.1"), port: 1883 }
    }
}

impl Broker {
    /// The broker settings of a file section, each absent key taking its default.
    pub fn from_patch(p: BrokerPatch) -> (r: Broker)
        ensures
            r@ == resolved_broker(p),
    {
        Broker { host: resolve_text(p.host, "127.0.0.1"), port: match p.port {
            Some(v) => v,
            None => 1883,
        } }
    }
}

// ---------------------------------------------------------------------------
// Modbus
// ---------------------------------------------------------------------------

/// Modbus TCP endpoint polled by the collector (the simulator by default).
#[derive(Debug, Clone)]
pub struct Modbus {
    pub host: String,
    pub port: u16,
    pub register: u16,
    pub interval_ms: u64,
}

pub struct ModbusView {
    pub host: Seq<char>,
    pub port: u16,
    pub register: u16,
    pub interval_ms: u64,
}

impl View for Modbus {
    type V = ModbusView;

    open spec fn view(&self) -> ModbusView {
        ModbusView {
            host: self.host@,
            port: self.port,
            register: self.register,
            interval_ms: self.interval_ms,
        }
    }
}

/// The modbus section as a configuration file gives it: each key may be absent.
#[derive(Debug, Clone)]
pub struct ModbusPatch {
    pub host: Option<String>,
    pub port: Option<u16>,
    pub register: Option<u16>,
    pub interval_ms: Option<u64>,
}

pub open spec fn default_modbus() -> ModbusView {
    ModbusView { host: "127.0.0.1"@, port: 5020, register: 0, interval_ms: 2000 }
}

pub open spec fn resolved_modbus(p: ModbusPatch) -> ModbusView {
    ModbusView {
        host: text_or(p.host, default_modbus().host),
        port: number_or(p.port, default_modbus().port),
        register: number_or(p.register, default_modbus().register),
        interval_ms: number_or(p.interval_ms, default_modbus().interval_ms),
    }
}

impl Default for Modbus {
    /// The built-in Modbus endpoint: the local simulator, register 0, every 2 s.
    fn default() -> (r: Modbus)
        ensures
            r@ == default_modbus(),
    {
        Modbus { host: String::from_str("127.0.0.1"), port: 5020, register: 0, interval_ms: 2000 }
    }
}

impl Modbus {
    /// The Modbus settings of a file section, each absent key taking its default.
    pub fn from_patch(p: ModbusPatch) -> (r: Modbus)
        ensures
            r@ == resolved_modbus(p),
    {
        Modbus {
            host: resolve_text(p.host, "127.0.0.1"),
            port: match p.port {
                Some(v) => v,
                None => 5020,
            },
            register: match p.register {
                Some(v) => v,
                None => 0,
            },
            interval_ms: match p.interval_ms {
                Some(v) => v,
                None => 2000,
            },
        }
    }
}

// ---------------------------------------------------------------------------
// Mqtt
// ---------------------------------------------------------------------------

/// MQTT client settings: publishing client id, data topic, verification subscription.
#[derive(Debug, Clone)]
pub struct Mqtt {
    pub client_id: String,
    pub topic: String,
    pub sub_topic: String,
}

pub struct MqttView {
    pub client_id: Seq<char>,
    pub topic: Seq<char>,
    pub sub_topic: Seq<char>,
}

impl View for Mqtt {
    type V = MqttView;

    open spec fn view(&self) -> MqttView {
        MqttView { client_id: self.client_id@, topic: self.topic@, sub_topic: self.sub_topic@ }
    }
}

/// The mqtt section as a configuration file gives it: each key may be absent.
#[derive(Debug, Clone)]
pub struct MqttPatch {
    pub client_id: Option<String>,
    pub topic: Option<String>,
    pub sub_topic: Option<String>,
}

pub open spec fn default_mqtt() -> MqttView {
    MqttView {
        client_id: "iot-gateway-collector"@,
        topic: "iot/site1/gateway1/data"@,
        sub_topic: "iot/#"@,
    }
}

pub open spec fn resolved_mqtt(p: MqttPatch) -> MqttView {
    MqttView {
        client_id: text_or(p.client_id, default_mqtt().client_id),
        topic: text_or(p.topic, default_mqtt().topic),
        sub_topic: text_or(p.sub_topic, default_mqtt().sub_topic),
    }
}

impl Default for Mqtt {
    /// The built-in client id and topics.
    fn default() -> (r: Mqtt)
        ensures
            r@ == default_mqtt(),
    {
        Mqtt {
            client_id: String::from_str("iot-gateway-collector"),
            topic: String::from_str("iot/site1/gateway1/data"),
            sub_topic: String::from_str("iot/#"),
        }
    }
}

impl Mqtt {
    /// The MQTT settings of a file section, each absent key taking its default.
    pub fn from_patch(p: MqttPatch) -> (r: Mqtt)
        ensures
            r@ == resolved_mqtt(p),
    {
        Mqtt {
            client_id: resolve_text(p.client_id, "iot-gateway-collector"),
            topic: resolve_text(p.topic, "iot/site1/gateway1/data"),
            sub_topic: resolve_text(p.sub_topic, "iot/#"),
        }
    }
}

// ---------------------------------------------------------------------------
// Db
// ---------------------------------------------------------------------------

/// Location of the SQLite historian.
#[derive(Debug, Clone)]
pub struct Db {
    pub path: String,
}

pub struct DbView {
    pub path: Seq<char>,
}

impl View for Db {
    type V = DbView;

    open spec fn view(&self) -> DbView {
        DbView { path: self.path@ }
    }
}

/// The db section as a configuration file gives it: the key may be absent.
#[derive(Debug, Clone)]
pub struct DbPatch {
    pub path: Option<String>,
}

pub open spec fn default_db() -> DbView {
    DbView { path: "data/iot_gateway.db"@ }
}

pub open spec fn resolved_db(p: DbPatch) -> DbView {
    DbView { path: text_or(p.path, default_db().path) }
}

impl Default for Db {
    /// The built-in historian path.
    fn default() -> (r: Db)
        ensures
            r@ == default_db(),
    {
        Db { path: String::from_str("data/iot_gateway.db") }
    }
}

impl Db {
    /// The historian settings of a file section, the absent key taking its default.
    pub fn from_patch(p: DbPatch) -> (r: Db)
        ensures
            r@ == resolved_db(p),
    {
        Db { path: resolve_text(p.path, "data/iot_gateway.db") }
    }
}

// ---------------------------------------------------------------------------
// Config
// ---------------------------------------------------------------------------

/// Top-level application configuration.
#[derive(Debug, Clone)]
pub struct Config {
    pub broker: Broker,
    pub modbus: Modbus,
    pub mqtt: Mqtt,
    pub db: Db,
}

pub struct ConfigView {
    pub broker: BrokerView,
    pub modbus: ModbusView,
    pub mqtt: MqttView,
    pub db: DbView,
}

impl View for Config {
    type V = ConfigView;

    open spec fn view(&self) -> ConfigView {
        ConfigView { broker: self.broker@, modbus: self.modbus@, mqtt: self.mqtt@, db: self.db@ }
    }
}

/// A configuration file's content: a section that the file leaves out is a
/// patch with every key absent.
#[derive(Debug, Clone)]
pub struct ConfigPatch {
    pub broker: BrokerPatch,
    pub modbus: ModbusPatch,
    pub mqtt: MqttPatch,
    pub db: DbPatch,
}

pub open spec fn default_config() -> ConfigView {
    ConfigView {
        broker: default_broker(),
        modbus: default_modbus(),
        mqtt: default_mqtt(),
        db: default_db(),
    }
}

pub open spec fn resolved_config(p: ConfigPatch) -> ConfigView {
    ConfigView {
        broker: resolved_broker(p.broker),
        modbus: resolved_modbus(p.modbus),
        mqtt: resolved_mqtt(p.mqtt),
        db: resolved_db(p.db),
    }
}

/// A patch that sets nothing.
pub open spec fn empty_patch() -> ConfigPatch {
    ConfigPatch {
        broker: BrokerPatch { host: None, port: None },
        modbus: ModbusPatch { host: None, port: None, register: None, interval_ms: None },
        mqtt: MqttPatch { client_id: None, topic: None, sub_topic: None },
        db: DbPatch { path: None },
    }
}

impl Default for Config {
    /// The built-in configuration, used when no configuration file exists.
    fn default() -> (r: Config)
        ensures
            r@ == default_config(),
    {
        Config {
            broker: Broker::default(),
            modbus: Modbus::default(),
            mqtt: Mqtt::default(),
            db: Db::default(),
        }
    }
}

impl Config {
    /// The configuration a file describes: every key the file gives is taken
    /// as given, every key it leaves out takes its built-in default.
    pub fn from_patch(p: ConfigPatch) -> (r: Config)
        ensures
            r@ == resolved_config(p),
    {
        Config {
            broker: Broker::from_patch(p.broker),
            modbus: Modbus::from_patch(p.modbus),
            mqtt: Mqtt::from_patch(p.mqtt),
            db: Db::from_patch(p.db),
        }
    }
}

/// A file that sets no key describes exactly the built-in configuration.
pub proof fn law_empty_file_gives_defaults()
    ensures
        resolved_config(empty_patch()) == default_config(),
{
}

/// Keys left out of a file keep their defaults, and keys given in the file
/// are taken verbatim, each independently of the others.
pub proof fn law_file_overrides_only_given_keys(p: ConfigPatch)
    ensures
        ({
            let c = resolved_config(p);
            &&& (p.broker.host is None ==> c.broker.host == default_broker().host)
            &&& (p.broker.host matches Some(h) ==> c.broker.host == h@)
            &&& (p.broker.port is None ==> c.broker.port == default_broker().port)
            &&& (p.broker.port matches Some(v) ==> c.broker.port == v)
            &&& (p.modbus.host is None ==> c.modbus.host == default_modbus().host)
            &&& (p.modbus.host matches Some(h) ==> c.modbus.host == h@)
            &&& (p.modbus.port is None ==> c.modbus.port == default_modbus().port)
            &&& (p.modbus.port matches Some(v) ==> c.modbus.port == v)
            &&& (p.modbus.register is None ==> c.modbus.register == default_modbus().register)
            &&& (p.modbus.register matches Some(v) ==> c.modbus.register == v)
            &&& (p.modbus.interval_ms is None ==> c.modbus.interval_ms
                == default_modbus().interval_ms)
            &&& (p.modbus.interval_ms matches Some(v) ==> c.modbus.interval_ms == v)
            &&& (p.mqtt.client_id is None ==> c.mqtt.client_id == default_mqtt().client_id)
            &&& (p.mqtt.client_id matches Some(s) ==> c.mqtt.client_id == s@)
            &&& (p.mqtt.topic is None ==> c.mqtt.topic == default_mqtt().topic)
            &&& (p.mqtt.topic matches Some(s) ==> c.mqtt.topic == s@)
            &&& (p.mqtt.sub_topic is None ==> c.mqtt.sub_topic == default_mqtt().sub_topic)
            &&& (p.mqtt.sub_topic matches Some(s) ==> c.mqtt.sub_topic == s@)
            &&& (p.db.path is None ==> c.db.path == default_db().path)
            &&& (p.db.path matches Some(s) ==> c.db.path == s@)
        }),
{
}

} // verus!
