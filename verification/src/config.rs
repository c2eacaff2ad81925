//! Startup configuration and the validation rules for configuration values,
//! broker lists and topic names.

use vstd::prelude::*;
use crate::text::{
    lemma_byte_len_concat, lemma_split_chars, lemma_split_concat, lemma_split_nonempty,
    lemma_trim_contains, byte_len, digit_char, char_is_alphanumeric, chars_of, decimal, decimal_text, has_char, has_prefix,
    is_alphanumeric, split_on, split_pieces, starts_with, trim, trimmed,
};

verus! {

/// The longest broker list accepted, in bytes.
pub const MAX_BROKER_LEN: usize = 4096;

/// The longest topic name accepted, in bytes.
pub const MAX_TOPIC_NAME_LEN: usize = 249;

/// Command-line arguments of the dashboard.
#[derive(Clone, Debug)]
pub struct Args {
    /// Kafka broker addresses (comma-separated).
    pub brokers: String,
    /// Server port.
    pub port: u16,
    /// Server host.
    pub host: String,
    /// Static files directory (frontend dist).
    pub static_dir: String,
    /// Kafka security protocol (e.g. SASL_SSL, SASL_PLAINTEXT, SSL).
    pub security_protocol: Option<String>,
    /// SASL mechanism (e.g. PLAIN, SCRAM-SHA-256, SCRAM-SHA-512).
    pub sasl_mechanism: Option<String>,
    /// SASL username / API key.
    pub sasl_username: Option<String>,
    /// SASL password / API secret.
    pub sasl_password: Option<String>,
}

/// The environment variables that override the command-line arguments, each
/// `None` where the variable is unset or not valid Unicode.
#[derive(Clone, Debug)]
pub struct EnvVars {
    pub kafka_brokers: Option<String>,
    pub server_host: Option<String>,
    pub server_port: Option<String>,
    pub static_dir: Option<String>,
    pub consumer_group: Option<String>,
    pub security_protocol: Option<String>,
    pub sasl_mechanism: Option<String>,
    pub sasl_username: Option<String>,
    pub sasl_password: Option<String>,
}

/// Kafka security/authentication configuration for SASL, SSL, etc.
#[derive(Clone, Debug)]
pub struct SecurityConfig {
    pub security_protocol: Option<String>,
    pub sasl_mechanism: Option<String>,
    pub sasl_username: Option<String>,
    pub sasl_password: Option<String>,
}

impl Default for SecurityConfig {
    fn default() -> (s: SecurityConfig)
        ensures
            s.security_protocol is None,
            s.sasl_mechanism is None,
            s.sasl_username is None,
            s.sasl_password is None,
    {
        SecurityConfig {
            security_protocol: None,
            sasl_mechanism: None,
            sasl_username: None,
            sasl_password: None,
        }
    }
}

impl SecurityConfig {
    /// Whether any security setting is present.
    pub open spec fn configured(&self) -> bool {
        ||| self.security_protocol is Some
        ||| self.sasl_mechanism is Some
        ||| self.sasl_username is Some
        ||| self.sasl_password is Some
    }

    /// Returns true if any security setting is configured.
    pub fn is_configured(&self) -> (b: bool)
        ensures
            b == self.configured(),
            b <==> (self.security_protocol is Some || self.sasl_mechanism is Some
                || self.sasl_username is Some || self.sasl_password is Some),
    {
        self.security_protocol.is_some() || self.sasl_mechanism.is_some()
            || self.sasl_username.is_some() || self.sasl_password.is_some()
    }
}

/// The dashboard's configuration.
#[derive(Clone, Debug)]
pub struct AppConfig {
    pub kafka_brokers: String,
    pub server_host: String,
    pub server_port: u16,
    pub static_dir: String,
    pub consumer_group: String,
    pub security: SecurityConfig,
}

/// Whether `c` is an ASCII decimal digit.
pub open spec fn is_digit(c: char) -> bool {
    '0' <= c <= '9'
}

/// The value of a sequence of decimal digits, most significant first.
pub open spec fn digits_value(ds: Seq<char>) -> nat
    decreases ds.len(),
{
    if ds.len() == 0 {
        0
    } else {
        digits_value(ds.drop_last()) * 10 + ((ds.last() as int) - ('0' as int)) as nat
    }
}

/// The digits of a port text: the text without one leading `+`.
pub open spec fn port_digits(s: Seq<char>) -> Seq<char> {
    if s.len() > 0 && s[0] == '+' {
        s.drop_first()
    } else {
        s
    }
}

/// What `str::parse::<u16>` gives for `s`: an optional `+` followed by one or
/// more decimal digits whose value fits in 16 bits.
pub open spec fn parse_u16(s: Seq<char>) -> Option<u16> {
    let ds = port_digits(s);
    if ds.len() > 0 && (forall|i: int| 0 <= i < ds.len() ==> is_digit(#[trigger] ds[i]))
        && digits_value(ds) <= u16::MAX {
        Some(digits_value(ds) as u16)
    } else {
        None
    }
}

proof fn lemma_digits_value_grows(ds: Seq<char>, j: int)
    requires
        0 <= j <= ds.len(),
        forall|i: int| 0 <= i < ds.len() ==> is_digit(#[trigger] ds[i]),
    ensures
        digits_value(ds.take(j)) <= digits_value(ds),
    decreases ds.len() - j,
{
    if j < ds.len() {
        assert(ds.drop_last().take(j) =~= ds.take(j));
        assert forall|i: int| 0 <= i < ds.drop_last().len() implies is_digit(
            #[trigger] ds.drop_last()[i],
        ) by {
            assert(ds.drop_last()[i] == ds[i]);
        }
        lemma_digits_value_grows(ds.drop_last(), j);
        assert(is_digit(ds[ds.len() - 1]));
    } else {
        assert(ds.take(j) =~= ds);
    }
}

/// The port that a text names, as `str::parse::<u16>` reads it.
pub fn parse_port(text: &str) -> (port: Option<u16>)
    ensures
        port == parse_u16(text@),
{
    let cs = chars_of(text);
    let mut i: usize = 0;
    if cs.len() > 0 && cs[0] == '+' {
        i = 1;
    }
    let ghost ds = port_digits(text@);
    assert(ds =~= text@.subrange(i as int, text@.len() as int));
    if i >= cs.len() {
        return None;
    }
    let mut value: u32 = 0;
    let start = i;
    while i < cs.len()
        invariant
            cs@ == text@,
            start <= i <= cs.len(),
            ds == text@.subrange(start as int, text@.len() as int),
            ds == port_digits(text@),
            forall|k: int| 0 <= k < i - start ==> is_digit(#[trigger] ds[k]),
            value == digits_value(ds.take(i - start)),
            value <= u16::MAX,
        decreases cs.len() - i,
    {
        let c = cs[i];
        if !('0' <= c && c <= '9') {
            assert(ds[i - start] == c);
            assert(!is_digit(ds[i - start]));
            return None;
        }
        let d = (c as u32) - ('0' as u32);
        assert(ds.take(i - start + 1).drop_last() =~= ds.take(i - start));
        assert(ds.take(i - start + 1).last() == c);
        value = value * 10 + d;
        i = i + 1;
        assert(value == digits_value(ds.take(i - start)));
        if value > 65535 {
            proof {
                if forall|k: int| 0 <= k < ds.len() ==> is_digit(#[trigger] ds[k]) {
                    lemma_digits_value_grows(ds, i - start);
                }
            }
            return None;
        }
    }
    assert(ds.take(i - start) =~= ds);
    Some(value as u16)
}

impl AppConfig {
    /// The configuration that the arguments give, each overridden by its
    /// environment variable where that is set (the port only where its value
    /// parses), and the consumer group `kafka-dashboard` unless the
    /// environment names another.
    pub fn from_args_and_env(args: Args, env: EnvVars) -> (c: AppConfig)
        ensures
            c.kafka_brokers == (if env.kafka_brokers is Some { env.kafka_brokers->0 } else { args.brokers }),
            c.server_host == (if env.server_host is Some { env.server_host->0 } else { args.host }),
            c.server_port == (if env.server_port is Some && parse_u16(env.server_port->0@) is Some {
                parse_u16(env.server_port->0@)->0
            } else {
                args.port
            }),
            c.static_dir == (if env.static_dir is Some { env.static_dir->0 } else { args.static_dir }),
            c.consumer_group@ == (if env.consumer_group is Some { env.consumer_group->0@ } else { "kafka-dashboard"@ }),
            c.security.security_protocol == (if env.security_protocol is Some { env.security_protocol } else { args.security_protocol }),
            c.security.sasl_mechanism == (if env.sasl_mechanism is Some { env.sasl_mechanism } else { args.sasl_mechanism }),
            c.security.sasl_username == (if env.sasl_username is Some { env.sasl_username } else { args.sasl_username }),
            c.security.sasl_password == (if env.sasl_password is Some { env.sasl_password } else { args.sasl_password }),
    {
        let security = SecurityConfig {
            security_protocol: match env.security_protocol {
                Some(v) => Some(v),
                None => args.security_protocol,
            },
            sasl_mechanism: match env.sasl_mechanism {
                Some(v) => Some(v),
                None => args.sasl_mechanism,
            },
            sasl_username: match env.sasl_username {
                Some(v) => Some(v),
                None => args.sasl_username,
            },
            sasl_password: match env.sasl_password {
                Some(v) => Some(v),
                None => args.sasl_password,
            },
        };
        let server_port = match &env.server_port {
            Some(p) => match parse_port(p.as_str()) {
                Some(n) => n,
                None => args.port,
            },
            None => args.port,
        };
        AppConfig {
            kafka_brokers: match env.kafka_brokers {
                Some(v) => v,
                None => args.brokers,
            },
            server_host: match env.server_host {
                Some(v) => v,
                None => args.host,
            },
            server_port,
            static_dir: match env.static_dir {
                Some(v) => v,
                None => args.static_dir,
            },
            consumer_group: match env.consumer_group {
                Some(v) => v,
                None => String::from_str("kafka-dashboard"),
            },
            security,
        }
    }
}

/// Whether a validation outcome is the one that `verdict` describes: `Ok`
/// where the verdict has no complaint, and otherwise the complaint's text.
pub open spec fn reports(r: Result<(), String>, verdict: Option<Seq<char>>) -> bool {
    match r {
        Ok(_) => verdict is None,
        Err(e) => verdict == Some(e@),
    }
}

/// The complaint about a value whose byte length exceeds the limit.
pub open spec fn too_long_text(field: Seq<char>, len: nat) -> Seq<char> {
    field + " too long ("@ + decimal(len) + " chars, max "@ + decimal(MAX_BROKER_LEN as nat) + ")"@
}

fn too_long_message(field: &str, len: usize) -> (m: String)
    ensures
        m@ == too_long_text(field@, len as nat),
{
    let mut m = String::from_str(field);
    m.append(" too long (");
    let n = decimal_text(len);
    m.append(n.as_str());
    m.append(" chars, max ");
    let limit = decimal_text(MAX_BROKER_LEN);
    m.append(limit.as_str());
    m.append(")");
    m
}

/// The security protocols accepted.
pub open spec fn is_known_protocol(p: Seq<char>) -> bool {
    p == "SASL_SSL"@ || p == "SASL_PLAINTEXT"@ || p == "SSL"@
}

/// The SASL mechanisms accepted.
pub open spec fn is_known_mechanism(m: Seq<char>) -> bool {
    m == "PLAIN"@ || m == "SCRAM-SHA-256"@ || m == "SCRAM-SHA-512"@
}

fn known_protocol(p: &String) -> (b: bool)
    ensures
        b == is_known_protocol(p@),
{
    *p == String::from_str("SASL_SSL") || *p == String::from_str("SASL_PLAINTEXT") || *p
        == String::from_str("SSL")
}

fn known_mechanism(m: &String) -> (b: bool)
    ensures
        b == is_known_mechanism(m@),
{
    *m == String::from_str("PLAIN") || *m == String::from_str("SCRAM-SHA-256") || *m
        == String::from_str("SCRAM-SHA-512")
}

/// The complaint about a SASL mechanism, if it has one.
pub open spec fn mechanism_error(mechanism: Option<String>) -> Option<Seq<char>> {
    if mechanism is Some && !is_known_mechanism(mechanism->0@) {
        Some(
            "invalid sasl_mechanism '"@ + mechanism->0@
                + "' \u{2014} must be one of: PLAIN, SCRAM-SHA-256, SCRAM-SHA-512"@,
        )
    } else {
        None
    }
}

/// The complaint about the security settings, if they have one.
pub open spec fn security_error(s: SecurityConfig) -> Option<Seq<char>> {
    if s.security_protocol is Some {
        let p = s.security_protocol->0@;
        if !is_known_protocol(p) {
            Some(
                "invalid security_protocol '"@ + p
                    + "' \u{2014} must be one of: SASL_SSL, SASL_PLAINTEXT, SSL"@,
            )
        } else if has_prefix(p, "SASL"@) && s.sasl_mechanism is None {
            Some("sasl_mechanism is required when security_protocol is "@ + p)
        } else if has_prefix(p, "SASL"@) && (s.sasl_username is None || s.sasl_password is None) {
            Some("sasl_username and sasl_password are required when security_protocol is "@ + p)
        } else {
            mechanism_error(s.sasl_mechanism)
        }
    } else {
        mechanism_error(s.sasl_mechanism)
    }
}

/// The complaint about a configuration, if it has one; the checks run in
/// order and the first that fails is reported.
pub open spec fn config_error(c: AppConfig) -> Option<Seq<char>> {
    let brokers = c.kafka_brokers@;
    if trim(brokers).len() == 0 {
        Some("kafka_brokers must not be empty"@)
    } else if byte_len(brokers) > MAX_BROKER_LEN {
        Some(too_long_text("kafka_brokers"@, byte_len(brokers)))
    } else if c.server_port == 0 {
        Some("server_port must not be 0"@)
    } else {
        security_error(c.security)
    }
}

fn check_mechanism(mechanism: &Option<String>) -> (r: Result<(), String>)
    ensures
        reports(r, mechanism_error(*mechanism)),
{
    match mechanism {
        Some(m) => {
            if !known_mechanism(m) {
                let mut e = String::from_str("invalid sasl_mechanism '");
                e.append(m.as_str());
                e.append("' \u{2014} must be one of: PLAIN, SCRAM-SHA-256, SCRAM-SHA-512");
                return Err(e);
            }
            Ok(())
        },
        None => Ok(()),
    }
}

impl AppConfig {
    /// Validate configuration at startup.
    pub fn validate(&self) -> (r: Result<(), String>)
        requires
            byte_len(self.kafka_brokers@) <= usize::MAX,
        ensures
            reports(r, config_error(*self)),
    {
        let brokers = self.kafka_brokers.as_str();
        let t = trimmed(brokers);
        if t.as_str().is_empty() {
            return Err(String::from_str("kafka_brokers must not be empty"));
        }
        if brokers.len() > MAX_BROKER_LEN {
            return Err(too_long_message("kafka_brokers", brokers.len()));
        }
        if self.server_port == 0 {
            return Err(String::from_str("server_port must not be 0"));
        }
        match &self.security.security_protocol {
            Some(protocol) => {
                if !known_protocol(protocol) {
                    let mut e = String::from_str("invalid security_protocol '");
                    e.append(protocol.as_str());
                    e.append("' \u{2014} must be one of: SASL_SSL, SASL_PLAINTEXT, SSL");
                    return Err(e);
                }
                if starts_with(protocol.as_str(), "SASL") {
                    if self.security.sasl_mechanism.is_none() {
                        let mut e = String::from_str(
                            "sasl_mechanism is required when security_protocol is ",
                        );
                        e.append(protocol.as_str());
                        return Err(e);
                    }
                    if self.security.sasl_username.is_none() || self.security.sasl_password.is_none() {
                        let mut e = String::from_str(
                            "sasl_username and sasl_password are required when security_protocol is ",
                        );
                        e.append(protocol.as_str());
                        return Err(e);
                    }
                }
            },
            None => {},
        }
        check_mechanism(&self.security.sasl_mechanism)
    }
}

/// The complaint about one entry of a broker list, if it has one.
pub open spec fn broker_entry_error(entry: Seq<char>) -> Option<Seq<char>> {
    let t = trim(entry);
    if t.len() == 0 {
        Some("empty broker address in comma-separated list"@)
    } else if !t.contains(':') {
        Some("invalid broker address '"@ + t + "' \u{2014} expected host:port format"@)
    } else {
        None
    }
}

/// The complaint about the first faulty entry of a broker list, if any is.
pub open spec fn first_entry_error(entries: Seq<Seq<char>>) -> Option<Seq<char>>
    decreases entries.len(),
{
    if entries.len() == 0 {
        None
    } else if broker_entry_error(entries[0]) is Some {
        broker_entry_error(entries[0])
    } else {
        first_entry_error(entries.drop_first())
    }
}

/// The complaint about a broker list, if it has one.
pub open spec fn brokers_error(brokers: Seq<char>) -> Option<Seq<char>> {
    if trim(brokers).len() == 0 {
        Some("brokers must not be empty"@)
    } else if byte_len(brokers) > MAX_BROKER_LEN {
        Some(too_long_text("brokers"@, byte_len(brokers)))
    } else {
        first_entry_error(split_on(brokers, ','))
    }
}

/// Validate a broker address string (used by the set_broker API handler).
pub fn validate_brokers(brokers: &str) -> (r: Result<(), String>)
    requires
        byte_len(brokers@) <= usize::MAX,
    ensures
        reports(r, brokers_error(brokers@)),
{
    let t = trimmed(brokers);
    if t.as_str().is_empty() {
        return Err(String::from_str("brokers must not be empty"));
    }
    if brokers.len() > MAX_BROKER_LEN {
        return Err(too_long_message("brokers", brokers.len()));
    }
    let parts = split_pieces(brokers, ',');
    let ghost entries = split_on(brokers@, ',');
    let mut i: usize = 0;
    assert(entries.skip(0) =~= entries);
    while i < parts.len()
        invariant
            i <= parts.len(),
            parts@.len() == entries.len(),
            forall|k: int| 0 <= k < parts@.len() ==> #[trigger] parts@[k]@ == entries[k],
            first_entry_error(entries) == first_entry_error(entries.skip(i as int)),
            entries == split_on(brokers@, ','),
            trim(brokers@).len() > 0,
            byte_len(brokers@) <= MAX_BROKER_LEN,
        decreases parts.len() - i,
    {
        assert(entries.skip(i as int).drop_first() =~= entries.skip(i + 1));
        assert(entries.skip(i as int)[0] == parts@[i as int]@);
        let part = trimmed(parts[i].as_str());
        if part.as_str().is_empty() {
            return Err(String::from_str("empty broker address in comma-separated list"));
        }
        if !has_char(part.as_str(), ':') {
            let mut e = String::from_str("invalid broker address '");
            e.append(part.as_str());
            e.append("' \u{2014} expected host:port format");
            return Err(e);
        }
        i = i + 1;
    }
    assert(entries.skip(i as int).len() == 0);
    Ok(())
}

/// Whether a character may stand in a topic name.
pub open spec fn topic_char_allowed(c: char) -> bool {
    char_is_alphanumeric(c) || c == '.' || c == '_' || c == '-'
}

/// The complaint about a topic name, if it has one.
pub open spec fn topic_name_error(name: Seq<char>) -> Option<Seq<char>> {
    if name.len() == 0 || byte_len(name) > MAX_TOPIC_NAME_LEN {
        Some("topic name must be 1-249 characters (got "@ + decimal(byte_len(name)) + ")"@)
    } else if exists|i: int| 0 <= i < name.len() && !topic_char_allowed(#[trigger] name[i]) {
        Some(
            "topic name '"@ + name
                + "' contains invalid characters \u{2014} only alphanumeric, '.', '_', '-' allowed"@,
        )
    } else {
        None
    }
}

/// A topic name is accepted exactly when it is 1 to 249 bytes long and every
/// one of its characters, wherever it stands, is alphanumeric or one of `.`,
/// `_`, `-`; a name of another length is refused with its length in bytes.
pub proof fn lemma_topic_name_accepted(name: Seq<char>)
    ensures
        topic_name_error(name) is None <==> {
            &&& name.len() > 0
            &&& byte_len(name) <= 249
            &&& forall|i: int|
                0 <= i < name.len() ==> (char_is_alphanumeric(#[trigger] name[i]) || name[i] == '.'
                    || name[i] == '_' || name[i] == '-')
        },
        name.len() == 0 || byte_len(name) > 249 ==> topic_name_error(name) == Some(
            "topic name must be 1-249 characters (got "@ + decimal(byte_len(name)) + ")"@,
        ),
{
}

/// Validate a topic name.
pub fn validate_topic_name(name: &str) -> (r: Result<(), String>)
    requires
        byte_len(name@) <= usize::MAX,
    ensures
        reports(r, topic_name_error(name@)),
        r is Ok <==> {
            &&& name@.len() > 0
            &&& byte_len(name@) <= 249
            &&& forall|i: int|
                0 <= i < name@.len() ==> (char_is_alphanumeric(#[trigger] name@[i]) || name@[i]
                    == '.' || name@[i] == '_' || name@[i] == '-')
        },
{
    proof {
        lemma_topic_name_accepted(name@);
    }
    if name.is_empty() || name.len() > MAX_TOPIC_NAME_LEN {
        let mut e = String::from_str("topic name must be 1-249 characters (got ");
        let n = decimal_text(name.len());
        e.append(n.as_str());
        e.append(")");
        return Err(e);
    }
    let cs = chars_of(name);
    let mut i: usize = 0;
    while i < cs.len()
        invariant
            cs@ == name@,
            i <= cs.len(),
            forall|k: int| 0 <= k < i ==> topic_char_allowed(#[trigger] name@[k]),
            name@.len() > 0,
            byte_len(name@) <= MAX_TOPIC_NAME_LEN,
        decreases cs.len() - i,
    {
        let c = cs[i];
        if !(is_alphanumeric(c) || c == '.' || c == '_' || c == '-') {
            assert(!topic_char_allowed(name@[i as int]));
            let mut e = String::from_str("topic name '");
            e.append(name);
            e.append(
                "' contains invalid characters \u{2014} only alphanumeric, '.', '_', '-' allowed",
            );
            return Err(e);
        }
        i = i + 1;
    }
    Ok(())
}

proof fn lemma_first_entry_error_none(entries: Seq<Seq<char>>)
    ensures
        first_entry_error(entries) is None <==> forall|i: int|
            0 <= i < entries.len() ==> broker_entry_error(#[trigger] entries[i]) is None,
    decreases entries.len(),
{
    if entries.len() > 0 {
        lemma_first_entry_error_none(entries.drop_first());
        assert forall|i: int| 1 <= i < entries.len() implies #[trigger] entries[i]
            == entries.drop_first()[i - 1] by {}
        if forall|i: int| 0 <= i < entries.len() ==> broker_entry_error(#[trigger] entries[i]) is None {
            assert forall|i: int| 0 <= i < entries.drop_first().len() implies broker_entry_error(
                #[trigger] entries.drop_first()[i],
            ) is None by {
                assert(entries.drop_first()[i] == entries[i + 1]);
            }
        }
    }
}

/// Whether one entry of a broker list is acceptable: something other than
/// whitespace, with a colon.
pub open spec fn broker_entry_ok(entry: Seq<char>) -> bool {
    trim(entry).len() > 0 && entry.contains(':')
}

/// A broker list is accepted exactly when, trimmed, it is not empty, it is at
/// most 4096 bytes long, and every comma-separated entry, trimmed, is not
/// empty and holds a colon.
pub proof fn lemma_brokers_accepted(brokers: Seq<char>)
    ensures
        brokers_error(brokers) is None <==> {
            &&& trim(brokers).len() > 0
            &&& byte_len(brokers) <= 4096
            &&& forall|i: int|
                0 <= i < split_on(brokers, ',').len() ==> {
                    &&& trim(#[trigger] split_on(brokers, ',')[i]).len() > 0
                    &&& split_on(brokers, ',')[i].contains(':')
                }
        },
{
    let entries = split_on(brokers, ',');
    lemma_first_entry_error_none(entries);
    assert forall|i: int| 0 <= i < entries.len() implies (broker_entry_error(
        #[trigger] entries[i],
    ) is None <==> broker_entry_ok(entries[i])) by {
        lemma_trim_contains(entries[i], ':');
    }
}

proof fn lemma_entries_ok_not_blank(brokers: Seq<char>)
    requires
        forall|i: int|
            0 <= i < split_on(brokers, ',').len() ==> broker_entry_ok(
                #[trigger] split_on(brokers, ',')[i],
            ),
    ensures
        trim(brokers).len() > 0,
{
    let entries = split_on(brokers, ',');
    lemma_split_nonempty(brokers, ',');
    assert(broker_entry_ok(entries[0]));
    let j = choose|j: int| 0 <= j < entries[0].len() && entries[0][j] == ':';
    lemma_split_chars(brokers, ',', 0, j);
    lemma_trim_contains(brokers, ':');
}

/// A list made of two lists joined by a comma is accepted exactly when each
/// is accepted and together they fit in 4096 bytes.
pub proof fn lemma_joined_brokers(a: Seq<char>, b: Seq<char>)
    ensures
        brokers_error(a + seq![','] + b) is None <==> {
            &&& brokers_error(a) is None
            &&& brokers_error(b) is None
            &&& byte_len(a) + byte_len(b) + 1 <= MAX_BROKER_LEN
        },
{
    let j = a + seq![','] + b;
    lemma_brokers_accepted(a);
    lemma_brokers_accepted(b);
    lemma_brokers_accepted(j);
    lemma_split_concat(a, b, ',');
    lemma_byte_len_concat(a + seq![','], b);
    lemma_byte_len_concat(a, seq![',']);
    assert(byte_len(seq![',']) == 1) by {
        assert(seq![','].drop_first() =~= Seq::<char>::empty());
        assert(vstd::utf8::encode_utf8(Seq::<char>::empty()).len() == 0);
        assert(seq![','][0] == ',');
        assert((',' as u32) == 44u32);
        assert(vstd::utf8::encode_scalar(',' as u32).len() == 1);
    }
    let ea = split_on(a, ',');
    let eb = split_on(b, ',');
    let ej = split_on(j, ',');
    assert(j[a.len() as int] == ',');
    lemma_trim_contains(j, ',');
    assert(trim(j).contains(','));
    if forall|i: int| 0 <= i < ej.len() ==> broker_entry_ok(#[trigger] ej[i]) {
        assert forall|i: int| 0 <= i < ea.len() implies broker_entry_ok(#[trigger] ea[i]) by {
            assert(ej[i] == ea[i]);
        }
        assert forall|i: int| 0 <= i < eb.len() implies broker_entry_ok(#[trigger] eb[i]) by {
            assert(ej[ea.len() + i] == eb[i]);
        }
        lemma_entries_ok_not_blank(a);
        lemma_entries_ok_not_blank(b);
    }
    if (forall|i: int| 0 <= i < ea.len() ==> broker_entry_ok(#[trigger] ea[i])) && (forall|i: int|
        0 <= i < eb.len() ==> broker_entry_ok(#[trigger] eb[i])) {
        assert forall|i: int| 0 <= i < ej.len() implies broker_entry_ok(#[trigger] ej[i]) by {
            if i < ea.len() {
                assert(ej[i] == ea[i]);
            } else {
                assert(ej[i] == eb[i - ea.len()]);
            }
        }
    }
}

/// A configuration is accepted exactly when its brokers, trimmed, are not
/// empty and fit in 4096 bytes, its port is not 0, a protocol it names is
/// SASL_SSL, SASL_PLAINTEXT or SSL, a mechanism it names is PLAIN,
/// SCRAM-SHA-256 or SCRAM-SHA-512, and with a SASL protocol it names a
/// mechanism, a username and a password.
pub proof fn lemma_accepted_config(c: AppConfig)
    ensures
        config_error(c) is None <==> {
            &&& trim(c.kafka_brokers@).len() > 0
            &&& byte_len(c.kafka_brokers@) <= 4096
            &&& c.server_port != 0
            &&& c.security.security_protocol is Some ==> (c.security.security_protocol->0@
                == "SASL_SSL"@ || c.security.security_protocol->0@ == "SASL_PLAINTEXT"@
                || c.security.security_protocol->0@ == "SSL"@)
            &&& c.security.sasl_mechanism is Some ==> (c.security.sasl_mechanism->0@ == "PLAIN"@
                || c.security.sasl_mechanism->0@ == "SCRAM-SHA-256"@
                || c.security.sasl_mechanism->0@ == "SCRAM-SHA-512"@)
            &&& c.security.security_protocol is Some && (c.security.security_protocol->0@
                == "SASL_SSL"@ || c.security.security_protocol->0@ == "SASL_PLAINTEXT"@) ==> {
                &&& c.security.sasl_mechanism is Some
                &&& c.security.sasl_username is Some
                &&& c.security.sasl_password is Some
            }
        },
{
    reveal_strlit("SASL");
    reveal_strlit("SASL_SSL");
    reveal_strlit("SASL_PLAINTEXT");
    reveal_strlit("SSL");
    assert("SASL_SSL"@.subrange(0, 4) =~= "SASL"@);
    assert("SASL_PLAINTEXT"@.subrange(0, 4) =~= "SASL"@);
    assert("SSL"@.len() < 4);
}

proof fn lemma_digit_char(k: nat)
    requires
        k < 10,
    ensures
        is_digit(digit_char(k)),
        (digit_char(k) as int) - ('0' as int) == k,
{
}

proof fn lemma_decimal_digits(n: nat)
    ensures
        decimal(n).len() > 0,
        forall|i: int| 0 <= i < decimal(n).len() ==> is_digit(#[trigger] decimal(n)[i]),
        digits_value(decimal(n)) == n,
    decreases n,
{
    if n < 10 {
        lemma_digit_char(n);
        assert(decimal(n).drop_last() =~= Seq::<char>::empty());
        assert(digits_value(decimal(n).drop_last()) == 0);
        assert(digits_value(decimal(n)) == n);
    } else {
        lemma_decimal_digits(n / 10);
        lemma_digit_char(n % 10);
        assert((n / 10) * 10 + n % 10 == n);
        let d = decimal(n / 10);
        assert(decimal(n).drop_last() =~= d);
        assert(decimal(n).last() == digit_char(n % 10));
        assert(digits_value(decimal(n)) == digits_value(d) * 10 + ((digit_char(n % 10) as int) - (
        '0' as int)) as nat);
        assert forall|i: int| 0 <= i < decimal(n).len() implies is_digit(#[trigger] decimal(n)[i]) by {
            if i < d.len() {
                assert(decimal(n)[i] == d[i]);
            }
        }
    }
}

/// Reading back the decimal text of a port gives the port, with or without
/// a leading `+`.
pub proof fn lemma_parse_decimal_port(port: u16)
    ensures
        parse_u16(decimal(port as nat)) == Some(port),
        parse_u16(seq!['+'] + decimal(port as nat)) == Some(port),
{
    lemma_decimal_digits(port as nat);
    let d = decimal(port as nat);
    assert(is_digit(d[0]));
    assert(port_digits(d) == d);
    assert((seq!['+'] + d)[0] == '+');
    assert((seq!['+'] + d).drop_first() =~= d);
}

/// The decimal text of a number above 65535 names no port, and neither does
/// an empty text or a lone `+`.
pub proof fn lemma_parse_out_of_range(n: nat)
    ensures
        n > 65535 ==> parse_u16(decimal(n)) is None,
        parse_u16(Seq::<char>::empty()) is None,
        parse_u16(seq!['+']) is None,
{
    lemma_decimal_digits(n);
    let d = decimal(n);
    assert(is_digit(d[0]));
    assert(port_digits(d) == d);
    assert(seq!['+'].drop_first() =~= Seq::<char>::empty());
}

} // verus!
