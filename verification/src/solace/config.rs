//! Transport configuration of the Solace input and output connectors.

use vstd::prelude::*;
use vstd::string::*;

use crate::text::blank;
use crate::text::decimal;
use crate::text::decimal_text;
use crate::text::is_blank;

verus! {

/// Maximum flow window size accepted by the Solace C SDK.
pub const MAX_WINDOW_SIZE: u32 = 255;

/// Upper bound on the window of the RGMID dedup cache, to keep its memory
/// footprint sane: each entry costs roughly 150 bytes, and the cache holds up to two
/// entries for each ID of the window.
pub const MAX_DEDUP_HISTORY_SIZE: usize = 10_000_000;

/// Solace C SDK log level.
#[derive(Debug, Clone, Copy, PartialEq, Eq, Structural)]
pub enum SolaceLogLevel {
    Critical,
    Error,
    Warning,
    Notice,
    Info,
    Debug,
}

/// The SDK log level for the configured one: `Warning` when unset.
pub open spec fn effective_log_level(level: Option<SolaceLogLevel>) -> SolaceLogLevel {
    match level {
        Some(level) => level,
        None => SolaceLogLevel::Warning,
    }
}

/// Maps the connector's log-level setting to the SDK level, defaulting to
/// `Warning` when unset.
pub fn solace_log_level(level: Option<SolaceLogLevel>) -> (sdk: SolaceLogLevel)
    ensures
        sdk == effective_log_level(level),
        level matches Some(given) ==> sdk == given,
        level is None ==> sdk is Warning,
{
    match level {
        Some(level) => level,
        None => SolaceLogLevel::Warning,
    }
}

/// Solace message delivery mode for the output connector.
#[derive(Debug, Clone, Copy, PartialEq, Eq, Structural)]
pub enum OutputDeliveryMode {
    /// Fire-and-forget; lowest latency, no broker acknowledgment (default).
    Direct,
    /// Broker-acknowledged; survives broker restarts at the cost of latency.
    Persistent,
}

impl Default for OutputDeliveryMode {
    fn default() -> (mode: Self)
        ensures
            mode == OutputDeliveryMode::Direct,
    {
        OutputDeliveryMode::Direct
    }
}

/// What is wrong with the connection settings shared by the two connectors: the
/// first of the problems, in the order in which they are reported.
pub open spec fn common_problem(
    host: Seq<char>,
    connect_timeout_secs: u64,
    reconnect_retries: i64,
    tls: bool,
    trust_store_set: bool,
) -> Option<Seq<char>> {
    if is_blank(host) {
        Some("host must not be empty"@)
    } else if connect_timeout_secs == 0 {
        Some("connect_timeout_secs must be >= 1"@)
    } else if reconnect_retries < -1 {
        Some("reconnect_retries must be >= 0, or -1 to retry forever"@)
    } else if trust_store_set && !tls {
        Some("ssl_trust_store_dir requires tls = true"@)
    } else {
        None
    }
}

/// A validation succeeds when there is no problem, and otherwise reports it.
pub open spec fn reports(outcome: Result<(), String>, problem: Option<Seq<char>>) -> bool {
    match outcome {
        Ok(_) => problem is None,
        Err(message) => problem == Some(message@),
    }
}

/// Validates the connection settings shared by the Solace input and output
/// connectors.
pub fn validate_common(
    host: &str,
    connect_timeout_secs: u64,
    reconnect_retries: i64,
    tls: bool,
    ssl_trust_store_dir: &Option<String>,
) -> (outcome: Result<(), String>)
    ensures
        reports(
            outcome,
            common_problem(
                host@,
                connect_timeout_secs,
                reconnect_retries,
                tls,
                ssl_trust_store_dir is Some,
            ),
        ),
        outcome is Ok <==> !is_blank(host@) && connect_timeout_secs >= 1 && reconnect_retries >= -1
            && (ssl_trust_store_dir is Some ==> tls),
{
    if blank(host) {
        return Err("host must not be empty".to_owned());
    }
    if connect_timeout_secs == 0 {
        return Err("connect_timeout_secs must be >= 1".to_owned());
    }
    if reconnect_retries < -1 {
        return Err("reconnect_retries must be >= 0, or -1 to retry forever".to_owned());
    }
    if ssl_trust_store_dir.is_some() && !tls {
        return Err("ssl_trust_store_dir requires tls = true".to_owned());
    }
    Ok(())
}

/// The URL scheme: `tcps` with TLS, `tcp` without.
pub open spec fn url_scheme(tls: bool) -> Seq<char> {
    if tls {
        "tcps"@
    } else {
        "tcp"@
    }
}

/// The SMF URL of a broker, `scheme://host:port`.
pub open spec fn broker_url(tls: bool, host: Seq<char>, port: u16) -> Seq<char> {
    url_scheme(tls) + "://"@ + host + ":"@ + decimal(port as nat)
}

/// Writes the SMF URL of a broker.
pub fn write_url(tls: bool, host: &str, port: u16) -> (url: String)
    ensures
        url@ == broker_url(tls, host@, port),
{
    let mut url = if tls {
        "tcps".to_owned()
    } else {
        "tcp".to_owned()
    };
    url.append("://");
    url.append(host);
    url.append(":");
    url.append(decimal_text(port as u64).as_str());
    url
}

/// The text of an optional string.
pub open spec fn option_text(s: Option<String>) -> Option<Seq<char>> {
    match s {
        Some(s) => Some(s@),
        None => None,
    }
}

fn copy_option(s: &Option<String>) -> (c: Option<String>)
    ensures
        c == *s,
{
    match s {
        Some(s) => Some(s.clone()),
        None => None,
    }
}

/// `secs` in milliseconds, or the largest representable number of milliseconds
/// where there is no such number.
pub open spec fn millis(secs: u64) -> u64 {
    if secs * 1000 <= u64::MAX {
        (secs * 1000) as u64
    } else {
        u64::MAX
    }
}

/// Session properties handed to the Solace SDK.
#[derive(Debug, Clone)]
pub struct SessionSettings {
    pub host_name: String,
    pub vpn_name: String,
    pub username: String,
    pub password: String,
    pub reconnect_retries: i64,
    pub reconnect_retry_wait_ms: u64,
    pub connect_timeout_ms: u64,
    pub generate_rcv_timestamps: bool,
    pub client_name: Option<String>,
    pub ssl_trust_store_dir: Option<String>,
    pub log_level: SolaceLogLevel,
}

/// Transport configuration for the Solace Platform SMF input connector.
///
/// Binds to a durable Solace queue over the native SMF protocol. Messages are
/// acknowledged to the broker only after the circuit step that ingested them has
/// been fully processed, or, in a fault-tolerant pipeline, durably checkpointed.
#[derive(Debug, Clone, PartialEq, Eq)]
pub struct SolaceInputConfig {
    /// Broker hostname (no scheme, no port).
    pub host: String,
    /// SMF port (default: 55555).
    pub port: u16,
    /// Solace message VPN name (default: `default`).
    pub vpn: String,
    /// Client username.
    pub username: String,
    /// Client password.
    pub password: String,
    /// Durable queue name to bind to.
    pub queue: String,
    /// Flow window size: how many unacknowledged messages the broker buffers
    /// client-side (default: 255).
    pub window_size: u32,
    /// Maximum number of unacknowledged messages the broker will deliver before
    /// pausing the flow. `None` uses the broker default.
    pub max_unacked: Option<i32>,
    /// Topic decomposition pattern with `{name}` placeholders.
    pub topic_pattern: Option<String>,
    /// Expose the full destination topic as the `solace_topic` metadata field.
    pub include_topic: bool,
    /// Expose the broker receive timestamp as the `broker_ts` metadata field.
    pub include_broker_timestamp: bool,
    /// Number of recently-seen replication-group message IDs retained for
    /// deduplication of broker redeliveries (default: 100,000; 0 disables
    /// deduplication). Beside this window, as many again of the IDs that left it
    /// are held, to recognize those that come back.
    pub dedup_history_size: usize,
    /// Route completely unparseable payloads to the dead-message queue.
    pub reject_parse_errors: bool,
    /// Use TLS instead of plaintext.
    pub tls: bool,
    /// Directory holding the trusted CA certificates. Requires `tls`.
    pub ssl_trust_store_dir: Option<String>,
    /// Client name reported to the broker. `None` lets the SDK generate one.
    pub client_name: Option<String>,
    /// Timeout for the initial broker connection, in seconds (default: 10).
    pub connect_timeout_secs: u64,
    /// SDK-level reconnect attempts for transient blips (default: 3; -1 retries
    /// forever).
    pub reconnect_retries: i64,
    /// Wait between SDK-level reconnect attempts, in milliseconds (default:
    /// 3000).
    pub reconnect_retry_wait_ms: u64,
    /// Wait between connector-level reconnect attempts after the SDK gives up,
    /// in seconds (default: 5).
    pub retry_interval_secs: u64,
    /// Solace SDK log level (default: warning).
    pub log_level: Option<SolaceLogLevel>,
}

impl Default for SolaceInputConfig {
    fn default() -> (config: Self)
        ensures
            config.is_default(),
    {
        SolaceInputConfig {
            host: String::new(),
            port: 55555,
            vpn: "default".to_owned(),
            username: String::new(),
            password: String::new(),
            queue: String::new(),
            window_size: 255,
            max_unacked: None,
            topic_pattern: None,
            include_topic: false,
            include_broker_timestamp: false,
            dedup_history_size: 100_000,
            reject_parse_errors: false,
            tls: false,
            ssl_trust_store_dir: None,
            client_name: None,
            connect_timeout_secs: 10,
            reconnect_retries: 3,
            reconnect_retry_wait_ms: 3000,
            retry_interval_secs: 5,
            log_level: None,
        }
    }
}

impl SolaceInputConfig {
    /// Every setting has its default value; the required ones are empty.
    pub open spec fn is_default(&self) -> bool {
        &&& self.host@ == Seq::<char>::empty()
        &&& self.port == 55555
        &&& self.vpn@ == "default"@
        &&& self.username@ == Seq::<char>::empty()
        &&& self.password@ == Seq::<char>::empty()
        &&& self.queue@ == Seq::<char>::empty()
        &&& self.window_size == 255
        &&& self.max_unacked is None
        &&& self.topic_pattern is None
        &&& !self.include_topic
        &&& !self.include_broker_timestamp
        &&& self.dedup_history_size == 100_000
        &&& !self.reject_parse_errors
        &&& !self.tls
        &&& self.ssl_trust_store_dir is None
        &&& self.client_name is None
        &&& self.connect_timeout_secs == 10
        &&& self.reconnect_retries == 3
        &&& self.reconnect_retry_wait_ms == 3000
        &&& self.retry_interval_secs == 5
        &&& self.log_level is None
    }

    /// Some per-message metadata is configured.
    pub open spec fn wants_metadata(&self) -> bool {
        self.include_topic || self.include_broker_timestamp || self.topic_pattern is Some
    }

    /// What is wrong with the configuration: the first of the problems, in the
    /// order in which they are reported.
    pub open spec fn problem(&self) -> Option<Seq<char>> {
        if self.window_size == 0 || self.window_size > MAX_WINDOW_SIZE {
            Some("window_size must be in 1..=255"@)
        } else if self.max_unacked matches Some(n) && n != -1 && n <= 0 {
            Some("max_unacked must be > 0, or -1 for no limit"@)
        } else if self.dedup_history_size > MAX_DEDUP_HISTORY_SIZE {
            Some(
                "dedup_history_size must be <= 10000000 (each entry costs roughly 150 bytes of memory)"@,
            )
        } else if self.retry_interval_secs == 0 {
            Some("retry_interval_secs must be >= 1"@)
        } else if is_blank(self.username@) {
            Some("username must not be empty"@)
        } else if is_blank(self.queue@) {
            Some("queue must not be empty"@)
        } else {
            common_problem(
                self.host@,
                self.connect_timeout_secs,
                self.reconnect_retries,
                self.tls,
                self.ssl_trust_store_dir is Some,
            )
        }
    }

    /// Whether any per-message metadata extraction is configured. The connector
    /// skips metadata construction entirely when it is not.
    pub fn metadata_requested(&self) -> (requested: bool)
        ensures
            requested == self.wants_metadata(),
            requested <==> self.include_topic || self.include_broker_timestamp
                || self.topic_pattern is Some,
    {
        self.include_topic || self.include_broker_timestamp || self.topic_pattern.is_some()
    }

    /// Full SMF URL for the Solace C SDK, e.g. `tcp://broker.example.com:55555`.
    pub fn smf_url(&self) -> (url: String)
        ensures
            url@ == broker_url(self.tls, self.host@, self.port),
    {
        write_url(self.tls, self.host.as_str(), self.port)
    }

    /// Validates the configuration, returning a human-readable error.
    pub fn validate(&self) -> (outcome: Result<(), String>)
        ensures
            reports(outcome, self.problem()),
            outcome is Ok <==> self.problem() is None,
            outcome matches Err(message) ==> self.problem() == Some(message@),
    {
        if self.window_size == 0 || self.window_size > MAX_WINDOW_SIZE {
            return Err("window_size must be in 1..=255".to_owned());
        }
        if let Some(max_unacked) = self.max_unacked {
            if max_unacked != -1 && max_unacked <= 0 {
                return Err("max_unacked must be > 0, or -1 for no limit".to_owned());
            }
        }
        if self.dedup_history_size > MAX_DEDUP_HISTORY_SIZE {
            return Err(
                "dedup_history_size must be <= 10000000 (each entry costs roughly 150 bytes of memory)".to_owned(),
            );
        }
        if self.retry_interval_secs == 0 {
            return Err("retry_interval_secs must be >= 1".to_owned());
        }
        if blank(self.username.as_str()) {
            return Err("username must not be empty".to_owned());
        }
        if blank(self.queue.as_str()) {
            return Err("queue must not be empty".to_owned());
        }
        validate_common(
            self.host.as_str(),
            self.connect_timeout_secs,
            self.reconnect_retries,
            self.tls,
            &self.ssl_trust_store_dir,
        )
    }

    /// The properties of the broker session of the input connector.
    pub fn session_settings(&self) -> (settings: SessionSettings)
        ensures
            settings.host_name@ == broker_url(self.tls, self.host@, self.port),
            settings.vpn_name@ == self.vpn@,
            settings.username@ == self.username@,
            settings.password@ == self.password@,
            settings.reconnect_retries == self.reconnect_retries,
            settings.reconnect_retry_wait_ms == self.reconnect_retry_wait_ms,
            settings.connect_timeout_ms == millis(self.connect_timeout_secs),
            settings.generate_rcv_timestamps,
            option_text(settings.client_name) == option_text(self.client_name),
            option_text(settings.ssl_trust_store_dir) == option_text(self.ssl_trust_store_dir),
            settings.client_name == self.client_name,
            settings.ssl_trust_store_dir == self.ssl_trust_store_dir,
            settings.log_level == effective_log_level(self.log_level),
    {
        SessionSettings {
            host_name: self.smf_url(),
            vpn_name: self.vpn.clone(),
            username: self.username.clone(),
            password: self.password.clone(),
            reconnect_retries: self.reconnect_retries,
            reconnect_retry_wait_ms: self.reconnect_retry_wait_ms,
            connect_timeout_ms: saturating_millis(self.connect_timeout_secs),
            generate_rcv_timestamps: true,
            client_name: copy_option(&self.client_name),
            ssl_trust_store_dir: copy_option(&self.ssl_trust_store_dir),
            log_level: solace_log_level(self.log_level),
        }
    }
}

fn saturating_millis(secs: u64) -> (ms: u64)
    ensures
        ms == millis(secs),
{
    if secs <= u64::MAX / 1000 {
        secs * 1000
    } else {
        u64::MAX
    }
}

/// Transport configuration for the Solace Platform SMF output connector.
///
/// Publishes serialized view records to a Solace topic over SMF. The destination
/// topic supports `{field}` placeholders resolved from the JSON record.
#[derive(Debug, Clone, PartialEq, Eq)]
pub struct SolaceOutputConfig {
    /// Broker hostname (no scheme, no port).
    pub host: String,
    /// SMF port (default: 55555).
    pub port: u16,
    /// Solace message VPN name (default: `default`).
    pub vpn: String,
    /// Client username.
    pub username: String,
    /// Client password.
    pub password: String,
    /// Destination topic template. Static topics are used as-is; `{field}`
    /// placeholders derive the topic from the record.
    pub topic: String,
    /// Delivery mode (default: direct).
    pub delivery_mode: OutputDeliveryMode,
    /// Maximum broker acknowledgments in flight before publishing blocks, for
    /// persistent delivery (default: 256).
    pub max_inflight_acks: usize,
    /// Maximum time to wait for broker acknowledgments when draining in-flight
    /// persistent publishes, in seconds (default: 30).
    pub ack_timeout_secs: u64,
    /// Per-topic publish throttle with conflation, in milliseconds (default:
    /// disabled).
    pub dedup_window_ms: Option<u64>,
    /// Use TLS instead of plaintext.
    pub tls: bool,
    /// Directory holding the trusted CA certificates. Requires `tls`.
    pub ssl_trust_store_dir: Option<String>,
    /// Client name reported to the broker. `None` lets the SDK generate one.
    pub client_name: Option<String>,
    /// Timeout for the initial broker connection, in seconds (default: 10).
    pub connect_timeout_secs: u64,
    /// SDK-level reconnect attempts for transient blips (default: 3; -1 retries
    /// forever).
    pub reconnect_retries: i64,
    /// Wait between SDK-level reconnect attempts, in milliseconds (default:
    /// 3000).
    pub reconnect_retry_wait_ms: u64,
    /// Solace SDK log level (default: warning).
    pub log_level: Option<SolaceLogLevel>,
}

impl Default for SolaceOutputConfig {
    fn default() -> (config: Self)
        ensures
            config.is_default(),
    {
        SolaceOutputConfig {
            host: String::new(),
            port: 55555,
            vpn: "default".to_owned(),
            username: String::new(),
            password: String::new(),
            topic: String::new(),
            delivery_mode: OutputDeliveryMode::Direct,
            max_inflight_acks: 256,
            ack_timeout_secs: 30,
            dedup_window_ms: None,
            tls: false,
            ssl_trust_store_dir: None,
            client_name: None,
            connect_timeout_secs: 10,
            reconnect_retries: 3,
            reconnect_retry_wait_ms: 3000,
            log_level: None,
        }
    }
}

impl SolaceOutputConfig {
    /// Every setting has its default value; the required ones are empty.
    pub open spec fn is_default(&self) -> bool {
        &&& self.host@ == Seq::<char>::empty()
        &&& self.port == 55555
        &&& self.vpn@ == "default"@
        &&& self.username@ == Seq::<char>::empty()
        &&& self.password@ == Seq::<char>::empty()
        &&& self.topic@ == Seq::<char>::empty()
        &&& self.delivery_mode == OutputDeliveryMode::Direct
        &&& self.max_inflight_acks == 256
        &&& self.ack_timeout_secs == 30
        &&& self.dedup_window_ms is None
        &&& !self.tls
        &&& self.ssl_trust_store_dir is None
        &&& self.client_name is None
        &&& self.connect_timeout_secs == 10
        &&& self.reconnect_retries == 3
        &&& self.reconnect_retry_wait_ms == 3000
        &&& self.log_level is None
    }

    /// What is wrong with the configuration: the first of the problems, in the
    /// order in which they are reported.
    pub open spec fn problem(&self) -> Option<Seq<char>> {
        if is_blank(self.username@) {
            Some("username must not be empty"@)
        } else if is_blank(self.topic@) {
            Some("topic must not be empty"@)
        } else if self.ack_timeout_secs == 0 {
            Some("ack_timeout_secs must be >= 1"@)
        } else if self.max_inflight_acks == 0 {
            Some("max_inflight_acks must be >= 1"@)
        } else if self.dedup_window_ms == Some(0u64) {
            Some("dedup_window_ms must be >= 1 when set; omit it to disable"@)
        } else {
            common_problem(
                self.host@,
                self.connect_timeout_secs,
                self.reconnect_retries,
                self.tls,
                self.ssl_trust_store_dir is Some,
            )
        }
    }

    /// Full SMF URL for the Solace C SDK, e.g. `tcp://broker.example.com:55555`.
    pub fn smf_url(&self) -> (url: String)
        ensures
            url@ == broker_url(self.tls, self.host@, self.port),
    {
        write_url(self.tls, self.host.as_str(), self.port)
    }

    /// Validates the configuration, returning a human-readable error.
    pub fn validate(&self) -> (outcome: Result<(), String>)
        ensures
            reports(outcome, self.problem()),
            outcome is Ok <==> self.problem() is None,
            outcome matches Err(message) ==> self.problem() == Some(message@),
    {
        if blank(self.username.as_str()) {
            return Err("username must not be empty".to_owned());
        }
        if blank(self.topic.as_str()) {
            return Err("topic must not be empty".to_owned());
        }
        if self.ack_timeout_secs == 0 {
            return Err("ack_timeout_secs must be >= 1".to_owned());
        }
        if self.max_inflight_acks == 0 {
            return Err("max_inflight_acks must be >= 1".to_owned());
        }
        if let Some(window) = self.dedup_window_ms {
            if window == 0 {
                return Err("dedup_window_ms must be >= 1 when set; omit it to disable".to_owned());
            }
        }
        validate_common(
            self.host.as_str(),
            self.connect_timeout_secs,
            self.reconnect_retries,
            self.tls,
            &self.ssl_trust_store_dir,
        )
    }

    /// The properties of the broker session of the output connector.
    pub fn session_settings(&self) -> (settings: SessionSettings)
        ensures
            settings.host_name@ == broker_url(self.tls, self.host@, self.port),
            settings.vpn_name@ == self.vpn@,
            settings.username@ == self.username@,
            settings.password@ == self.password@,
            settings.reconnect_retries == self.reconnect_retries,
            settings.reconnect_retry_wait_ms == self.reconnect_retry_wait_ms,
            settings.connect_timeout_ms == millis(self.connect_timeout_secs),
            !settings.generate_rcv_timestamps,
            option_text(settings.client_name) == option_text(self.client_name),
            option_text(settings.ssl_trust_store_dir) == option_text(self.ssl_trust_store_dir),
            settings.client_name == self.client_name,
            settings.ssl_trust_store_dir == self.ssl_trust_store_dir,
            settings.log_level == effective_log_level(self.log_level),
    {
        SessionSettings {
            host_name: self.smf_url(),
            vpn_name: self.vpn.clone(),
            username: self.username.clone(),
            password: self.password.clone(),
            reconnect_retries: self.reconnect_retries,
            reconnect_retry_wait_ms: self.reconnect_retry_wait_ms,
            connect_timeout_ms: saturating_millis(self.connect_timeout_secs),
            generate_rcv_timestamps: false,
            client_name: copy_option(&self.client_name),
            ssl_trust_store_dir: copy_option(&self.ssl_trust_store_dir),
            log_level: solace_log_level(self.log_level),
        }
    }
}

/// The default input configuration is valid once its required settings are
/// filled in.
pub proof fn input_defaults_are_valid(
    defaults: SolaceInputConfig,
    host: String,
    username: String,
    password: String,
    queue: String,
)
    requires
        defaults.is_default(),
        !is_blank(host@),
        !is_blank(username@),
        !is_blank(queue@),
    ensures
        (SolaceInputConfig { host, username, password, queue, ..defaults }).problem() is None,
{
}

/// The default output configuration is valid once its required settings are
/// filled in.
pub proof fn output_defaults_are_valid(
    defaults: SolaceOutputConfig,
    host: String,
    username: String,
    password: String,
    topic: String,
)
    requires
        defaults.is_default(),
        !is_blank(host@),
        !is_blank(username@),
        !is_blank(topic@),
    ensures
        (SolaceOutputConfig { host, username, password, topic, ..defaults }).problem() is None,
{
}

/// The settings that the two connectors share are valid exactly if the host is not blank,
/// the connection timeout is at least one second, the number of reconnect attempts is
/// not below -1, and a trust store is set only with TLS.
pub proof fn valid_connection_settings(
    host: Seq<char>,
    connect_timeout_secs: u64,
    reconnect_retries: i64,
    tls: bool,
    trust_store_set: bool,
)
    ensures
        common_problem(host, connect_timeout_secs, reconnect_retries, tls, trust_store_set) is None
            <==> !is_blank(host) && connect_timeout_secs >= 1 && reconnect_retries >= -1 && (
        trust_store_set ==> tls),
{
}

/// Of the problems with the settings that the two connectors share, the host comes first,
/// then the timeout, then the reconnect attempts, then the trust store.
pub proof fn connection_problems_in_order(
    host: Seq<char>,
    connect_timeout_secs: u64,
    reconnect_retries: i64,
    tls: bool,
    trust_store_set: bool,
)
    ensures
        ({
            let problem = common_problem(
                host,
                connect_timeout_secs,
                reconnect_retries,
                tls,
                trust_store_set,
            );
            &&& is_blank(host) ==> problem == Some("host must not be empty"@)
            &&& !is_blank(host) && connect_timeout_secs == 0 ==> problem == Some(
                "connect_timeout_secs must be >= 1"@,
            )
            &&& !is_blank(host) && connect_timeout_secs > 0 && reconnect_retries < -1 ==> problem
                == Some("reconnect_retries must be >= 0, or -1 to retry forever"@)
            &&& !is_blank(host) && connect_timeout_secs > 0 && reconnect_retries >= -1
                && trust_store_set && !tls ==> problem == Some(
                "ssl_trust_store_dir requires tls = true"@,
            )
        }),
{
}

/// An input configuration is valid exactly if its window holds 1 to 255 messages, the
/// limit of unacknowledged messages is positive or -1 where there is one, at most ten
/// million IDs are remembered, the retry interval is at least one second, the user name
/// and the queue are not blank, and the shared settings are valid.
pub proof fn valid_input_configurations(config: SolaceInputConfig)
    ensures
        config.problem() is None <==> ({
            &&& 1 <= config.window_size <= 255
            &&& config.max_unacked matches Some(n) ==> n > 0 || n == -1
            &&& config.dedup_history_size <= 10_000_000
            &&& config.retry_interval_secs >= 1
            &&& !is_blank(config.username@)
            &&& !is_blank(config.queue@)
            &&& !is_blank(config.host@)
            &&& config.connect_timeout_secs >= 1
            &&& config.reconnect_retries >= -1
            &&& config.ssl_trust_store_dir is Some ==> config.tls
        }),
{
}

/// The problems of an input configuration are reported in this order: window, limit of
/// unacknowledged messages, number of remembered IDs, retry interval, user name, queue,
/// and then those of the shared settings.
pub proof fn input_problems_in_order(config: SolaceInputConfig)
    ensures
        ({
            let window = 1 <= config.window_size <= 255;
            let unacked = config.max_unacked matches Some(n) ==> n > 0 || n == -1;
            let history = config.dedup_history_size <= 10_000_000;
            let interval = config.retry_interval_secs >= 1;
            let user = !is_blank(config.username@);
            let queue = !is_blank(config.queue@);
            &&& !window ==> config.problem() == Some("window_size must be in 1..=255"@)
            &&& window && !unacked ==> config.problem() == Some(
                "max_unacked must be > 0, or -1 for no limit"@,
            )
            &&& window && unacked && !history ==> config.problem() == Some(
                "dedup_history_size must be <= 10000000 (each entry costs roughly 150 bytes of memory)"@,
            )
            &&& window && unacked && history && !interval ==> config.problem() == Some(
                "retry_interval_secs must be >= 1"@,
            )
            &&& window && unacked && history && interval && !user ==> config.problem() == Some(
                "username must not be empty"@,
            )
            &&& window && unacked && history && interval && user && !queue ==> config.problem()
                == Some("queue must not be empty"@)
            &&& window && unacked && history && interval && user && queue ==> config.problem()
                == common_problem(
                config.host@,
                config.connect_timeout_secs,
                config.reconnect_retries,
                config.tls,
                config.ssl_trust_store_dir is Some,
            )
        }),
{
}

/// An output configuration is valid exactly if its user name and topic are not blank, the
/// time to wait for acknowledgments is at least one second, at least one may be in
/// flight, the throttle window is at least one millisecond where there is one, and the
/// shared settings are valid.
pub proof fn valid_output_configurations(config: SolaceOutputConfig)
    ensures
        config.problem() is None <==> ({
            &&& !is_blank(config.username@)
            &&& !is_blank(config.topic@)
            &&& config.ack_timeout_secs >= 1
            &&& config.max_inflight_acks >= 1
            &&& config.dedup_window_ms matches Some(ms) ==> ms >= 1
            &&& !is_blank(config.host@)
            &&& config.connect_timeout_secs >= 1
            &&& config.reconnect_retries >= -1
            &&& config.ssl_trust_store_dir is Some ==> config.tls
        }),
{
}

/// The problems of an output configuration are reported in this order: user name, topic,
/// acknowledgment timeout, acknowledgments in flight, throttle window, and then those of
/// the shared settings.
pub proof fn output_problems_in_order(config: SolaceOutputConfig)
    ensures
        ({
            let user = !is_blank(config.username@);
            let topic = !is_blank(config.topic@);
            let timeout = config.ack_timeout_secs >= 1;
            let inflight = config.max_inflight_acks >= 1;
            let window = config.dedup_window_ms matches Some(ms) ==> ms >= 1;
            &&& !user ==> config.problem() == Some("username must not be empty"@)
            &&& user && !topic ==> config.problem() == Some("topic must not be empty"@)
            &&& user && topic && !timeout ==> config.problem() == Some(
                "ack_timeout_secs must be >= 1"@,
            )
            &&& user && topic && timeout && !inflight ==> config.problem() == Some(
                "max_inflight_acks must be >= 1"@,
            )
            &&& user && topic && timeout && inflight && !window ==> config.problem() == Some(
                "dedup_window_ms must be >= 1 when set; omit it to disable"@,
            )
            &&& user && topic && timeout && inflight && window ==> config.problem()
                == common_problem(
                config.host@,
                config.connect_timeout_secs,
                config.reconnect_retries,
                config.tls,
                config.ssl_trust_store_dir is Some,
            )
        }),
{
}

/// The URL of a broker is `tcps://host:port` with TLS and `tcp://host:port` without.
pub proof fn urls_tell_whether_tls_is_used(host: Seq<char>, port: u16)
    ensures
        broker_url(true, host, port) == "tcps://"@ + host + ":"@ + decimal(port as nat),
        broker_url(false, host, port) == "tcp://"@ + host + ":"@ + decimal(port as nat),
{
    reveal_strlit("tcps");
    reveal_strlit("tcp");
    reveal_strlit("://");
    reveal_strlit("tcps://");
    reveal_strlit("tcp://");
    assert("tcps"@ + "://"@ == "tcps://"@);
    assert("tcp"@ + "://"@ == "tcp://"@);
}

/// A second has a thousand milliseconds. Where a number of seconds has no number of
/// milliseconds, the largest number stands in.
pub proof fn seconds_have_a_thousand_milliseconds(secs: u64)
    ensures
        secs <= 18_446_744_073_709_551 ==> millis(secs) == 1000 * secs,
        secs > 18_446_744_073_709_551 ==> millis(secs) == 0xffff_ffff_ffff_ffff,
{
}

/// An unset log level stands for `Warning`; any other is kept.
pub proof fn warnings_are_logged_by_default(level: SolaceLogLevel)
    ensures
        effective_log_level(None) == SolaceLogLevel::Warning,
        effective_log_level(Some(level)) == level,
{
}

/// Metadata is wanted exactly if the topic, the broker timestamp or a topic pattern is
/// asked for.
pub proof fn any_metadata_setting_asks_for_metadata(config: SolaceInputConfig)
    ensures
        !config.wants_metadata() <==> !config.include_topic && !config.include_broker_timestamp
            && config.topic_pattern is None,
{
}

/// What the two connectors use where nothing is set: port 55555 and the message VPN
/// `default`, without TLS; ten seconds to connect and three reconnect attempts, three
/// seconds apart. The input connector has a window of 255 messages, remembers 100,000
/// IDs, and tries again after five seconds. The output connector publishes directly,
/// without a throttle; of persistent publishes it leaves up to 256 in flight, and waits
/// for them up to 30 seconds.
pub proof fn defaults_are_what_they_are_said_to_be(
    input: SolaceInputConfig,
    output: SolaceOutputConfig,
)
    requires
        input.is_default(),
        output.is_default(),
    ensures
        input.port == 55555 && output.port == 55555,
        input.vpn@ == "default"@ && output.vpn@ == "default"@,
        !input.tls && !output.tls,
        input.ssl_trust_store_dir is None && output.ssl_trust_store_dir is None,
        input.client_name is None && output.client_name is None,
        input.log_level is None && output.log_level is None,
        input.connect_timeout_secs == 10 && output.connect_timeout_secs == 10,
        input.reconnect_retries == 3 && output.reconnect_retries == 3,
        input.reconnect_retry_wait_ms == 3000 && output.reconnect_retry_wait_ms == 3000,
        input.host@.len() == 0 && input.username@.len() == 0 && input.password@.len() == 0,
        output.host@.len() == 0 && output.username@.len() == 0 && output.password@.len() == 0,
        input.queue@.len() == 0 && output.topic@.len() == 0,
        input.window_size == 255,
        input.max_unacked is None,
        input.topic_pattern is None,
        !input.include_topic && !input.include_broker_timestamp,
        input.dedup_history_size == 100_000,
        !input.reject_parse_errors,
        input.retry_interval_secs == 5,
        output.delivery_mode is Direct,
        output.dedup_window_ms is None,
        output.max_inflight_acks == 256,
        output.ack_timeout_secs == 30,
{
}

} // verus!
