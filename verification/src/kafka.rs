//! Kafka client configurations: the properties that the dashboard's admin,
//! topic and seek consumers are created with.

use vstd::prelude::*;
use rdkafka::ClientConfig;
use crate::config::SecurityConfig;

verus! {

#[verifier::external_type_specification]
#[verifier::external_body]
pub struct ExClientConfig(rdkafka::ClientConfig);

/// The properties that a client configuration holds, key to value.
pub uninterp spec fn client_config_props(config: ClientConfig) -> Map<Seq<char>, Seq<char>>;

/// Calls `ClientConfig::new`, whose source starts from an empty property map.
#[verifier::external_body]
fn new_client_config() -> (config: ClientConfig)
    ensures
        client_config_props(config).dom().is_empty(),
{
    ClientConfig::new()
}

/// Calls `ClientConfig::set`, whose source inserts the pair into the property
/// map, replacing an earlier value of the key.
#[verifier::external_body]
fn set_property(config: &mut ClientConfig, key: &str, value: &str)
    ensures
        client_config_props(*final(config)) == client_config_props(*old(config)).insert(key@, value@),
{
    config.set(key, value);
}

/// The properties after the security settings that are present are applied.
pub open spec fn with_security(props: Map<Seq<char>, Seq<char>>, security: SecurityConfig) -> Map<Seq<char>, Seq<char>> {
    let p1 = match security.security_protocol {
        Some(v) => props.insert("security.protocol"@, v@),
        None => props,
    };
    let p2 = match security.sasl_mechanism {
        Some(v) => p1.insert("sasl.mechanisms"@, v@),
        None => p1,
    };
    let p3 = match security.sasl_username {
        Some(v) => p2.insert("sasl.username"@, v@),
        None => p2,
    };
    match security.sasl_password {
        Some(v) => p3.insert("sasl.password"@, v@),
        None => p3,
    }
}

/// The properties after the network timeouts are applied.
pub open spec fn with_timeouts(props: Map<Seq<char>, Seq<char>>) -> Map<Seq<char>, Seq<char>> {
    props.insert("socket.timeout.ms"@, "10000"@).insert(
        "socket.connection.setup.timeout.ms"@,
        "5000"@,
    ).insert("request.timeout.ms"@, "10000"@).insert("metadata.max.age.ms"@, "60000"@)
}

/// Apply SASL/SSL security settings to a Kafka ClientConfig.
/// Only sets properties that are configured (non-None).
pub fn apply_security(config: &mut ClientConfig, security: &SecurityConfig)
    ensures
        client_config_props(*final(config)) == with_security(client_config_props(*old(config)), *security),
{
    if let Some(protocol) = &security.security_protocol {
        set_property(config, "security.protocol", protocol.as_str());
    }
    if let Some(mechanism) = &security.sasl_mechanism {
        set_property(config, "sasl.mechanisms", mechanism.as_str());
    }
    if let Some(username) = &security.sasl_username {
        set_property(config, "sasl.username", username.as_str());
    }
    if let Some(password) = &security.sasl_password {
        set_property(config, "sasl.password", password.as_str());
    }
}

/// Apply sensible network timeouts for remote/cloud brokers.
pub fn apply_timeouts(config: &mut ClientConfig)
    ensures
        client_config_props(*final(config)) == with_timeouts(client_config_props(*old(config))),
{
    set_property(config, "socket.timeout.ms", "10000");
    set_property(config, "socket.connection.setup.timeout.ms", "5000");
    set_property(config, "request.timeout.ms", "10000");
    set_property(config, "metadata.max.age.ms", "60000");
}

/// The properties of the admin consumer's configuration.
pub open spec fn admin_props(brokers: Seq<char>, security: SecurityConfig) -> Map<Seq<char>, Seq<char>> {
    with_timeouts(
        with_security(
            Map::<Seq<char>, Seq<char>>::empty().insert("bootstrap.servers"@, brokers),
            security,
        ),
    )
}

/// The configuration with which the admin consumer is created: the brokers,
/// the security settings and the network timeouts.
pub fn admin_config(brokers: &str, security: &SecurityConfig) -> (config: ClientConfig)
    ensures
        client_config_props(config) == admin_props(brokers@, *security),
{
    let mut config = new_client_config();
    set_property(&mut config, "bootstrap.servers", brokers);
    apply_security(&mut config, security);
    apply_timeouts(&mut config);
    assert(client_config_props(config) =~= admin_props(brokers@, *security));
    config
}

/// The consumer group of a topic's live consumer: the dashboard's group, a
/// hyphen and the topic.
pub open spec fn topic_group(group_id: Seq<char>, topic: Seq<char>) -> Seq<char> {
    group_id + "-"@ + topic
}

/// The properties of a topic consumer's configuration.
pub open spec fn topic_consumer_props(
    brokers: Seq<char>,
    topic: Seq<char>,
    group_id: Seq<char>,
    security: SecurityConfig,
) -> Map<Seq<char>, Seq<char>> {
    with_timeouts(
        with_security(
            Map::<Seq<char>, Seq<char>>::empty().insert("bootstrap.servers"@, brokers).insert(
                "group.id"@,
                topic_group(group_id, topic),
            ).insert("auto.offset.reset"@, "latest"@).insert("enable.auto.commit"@, "true"@),
            security,
        ),
    )
}

/// The configuration with which a topic's live consumer is created: it reads
/// from the latest offset in its own group and commits automatically.
pub fn topic_consumer_config(
    brokers: &str,
    topic: &str,
    group_id: &str,
    security: &SecurityConfig,
) -> (config: ClientConfig)
    ensures
        client_config_props(config) == topic_consumer_props(brokers@, topic@, group_id@, *security),
{
    let mut group = String::from_str(group_id);
    group.append("-");
    group.append(topic);
    let mut config = new_client_config();
    set_property(&mut config, "bootstrap.servers", brokers);
    set_property(&mut config, "group.id", group.as_str());
    set_property(&mut config, "auto.offset.reset", "latest");
    set_property(&mut config, "enable.auto.commit", "true");
    apply_security(&mut config, security);
    apply_timeouts(&mut config);
    assert(client_config_props(config) =~= topic_consumer_props(
        brokers@,
        topic@,
        group_id@,
        *security,
    ));
    config
}

/// The properties of the seek consumer's configuration.
pub open spec fn seek_consumer_props(brokers: Seq<char>, security: SecurityConfig) -> Map<Seq<char>, Seq<char>> {
    with_timeouts(
        with_security(
            Map::<Seq<char>, Seq<char>>::empty().insert("bootstrap.servers"@, brokers).insert(
                "group.id"@,
                "kafka-dashboard-seek"@,
            ).insert("enable.auto.commit"@, "false"@),
            security,
        ),
    )
}

/// The configuration with which a seek consumer is created: its own group,
/// without committing offsets.
pub fn seek_consumer_config(brokers: &str, security: &SecurityConfig) -> (config: ClientConfig)
    ensures
        client_config_props(config) == seek_consumer_props(brokers@, *security),
{
    let mut config = new_client_config();
    set_property(&mut config, "bootstrap.servers", brokers);
    set_property(&mut config, "group.id", "kafka-dashboard-seek");
    set_property(&mut config, "enable.auto.commit", "false");
    apply_security(&mut config, security);
    apply_timeouts(&mut config);
    assert(client_config_props(config) =~= seek_consumer_props(brokers@, *security));
    config
}

/// The property keys that the configurations set are distinct texts.
proof fn lemma_property_keys_distinct()
    ensures
        "security.protocol"@ != "sasl.mechanisms"@,
        "security.protocol"@ != "sasl.username"@,
        "security.protocol"@ != "sasl.password"@,
        "security.protocol"@ != "socket.timeout.ms"@,
        "security.protocol"@ != "socket.connection.setup.timeout.ms"@,
        "security.protocol"@ != "request.timeout.ms"@,
        "security.protocol"@ != "metadata.max.age.ms"@,
        "security.protocol"@ != "bootstrap.servers"@,
        "security.protocol"@ != "group.id"@,
        "security.protocol"@ != "auto.offset.reset"@,
        "security.protocol"@ != "enable.auto.commit"@,
        "sasl.mechanisms"@ != "sasl.username"@,
        "sasl.mechanisms"@ != "sasl.password"@,
        "sasl.mechanisms"@ != "socket.timeout.ms"@,
        "sasl.mechanisms"@ != "socket.connection.setup.timeout.ms"@,
        "sasl.mechanisms"@ != "request.timeout.ms"@,
        "sasl.mechanisms"@ != "metadata.max.age.ms"@,
        "sasl.mechanisms"@ != "bootstrap.servers"@,
        "sasl.mechanisms"@ != "group.id"@,
        "sasl.mechanisms"@ != "auto.offset.reset"@,
        "sasl.mechanisms"@ != "enable.auto.commit"@,
        "sasl.username"@ != "sasl.password"@,
        "sasl.username"@ != "socket.timeout.ms"@,
        "sasl.username"@ != "socket.connection.setup.timeout.ms"@,
        "sasl.username"@ != "request.timeout.ms"@,
        "sasl.username"@ != "metadata.max.age.ms"@,
        "sasl.username"@ != "bootstrap.servers"@,
        "sasl.username"@ != "group.id"@,
        "sasl.username"@ != "auto.offset.reset"@,
        "sasl.username"@ != "enable.auto.commit"@,
        "sasl.password"@ != "socket.timeout.ms"@,
        "sasl.password"@ != "socket.connection.setup.timeout.ms"@,
        "sasl.password"@ != "request.timeout.ms"@,
        "sasl.password"@ != "metadata.max.age.ms"@,
        "sasl.password"@ != "bootstrap.servers"@,
        "sasl.password"@ != "group.id"@,
        "sasl.password"@ != "auto.offset.reset"@,
        "sasl.password"@ != "enable.auto.commit"@,
        "socket.timeout.ms"@ != "socket.connection.setup.timeout.ms"@,
        "socket.timeout.ms"@ != "request.timeout.ms"@,
        "socket.timeout.ms"@ != "metadata.max.age.ms"@,
        "socket.timeout.ms"@ != "bootstrap.servers"@,
        "socket.timeout.ms"@ != "group.id"@,
        "socket.timeout.ms"@ != "auto.offset.reset"@,
        "socket.timeout.ms"@ != "enable.auto.commit"@,
        "socket.connection.setup.timeout.ms"@ != "request.timeout.ms"@,
        "socket.connection.setup.timeout.ms"@ != "metadata.max.age.ms"@,
        "socket.connection.setup.timeout.ms"@ != "bootstrap.servers"@,
        "socket.connection.setup.timeout.ms"@ != "group.id"@,
        "socket.connection.setup.timeout.ms"@ != "auto.offset.reset"@,
        "socket.connection.setup.timeout.ms"@ != "enable.auto.commit"@,
        "request.timeout.ms"@ != "metadata.max.age.ms"@,
        "request.timeout.ms"@ != "bootstrap.servers"@,
        "request.timeout.ms"@ != "group.id"@,
        "request.timeout.ms"@ != "auto.offset.reset"@,
        "request.timeout.ms"@ != "enable.auto.commit"@,
        "metadata.max.age.ms"@ != "bootstrap.servers"@,
        "metadata.max.age.ms"@ != "group.id"@,
        "metadata.max.age.ms"@ != "auto.offset.reset"@,
        "metadata.max.age.ms"@ != "enable.auto.commit"@,
        "bootstrap.servers"@ != "group.id"@,
        "bootstrap.servers"@ != "auto.offset.reset"@,
        "bootstrap.servers"@ != "enable.auto.commit"@,
        "group.id"@ != "auto.offset.reset"@,
        "group.id"@ != "enable.auto.commit"@,
        "auto.offset.reset"@ != "enable.auto.commit"@,
{
    reveal_strlit("security.protocol");
    reveal_strlit("sasl.mechanisms");
    reveal_strlit("sasl.username");
    reveal_strlit("sasl.password");
    reveal_strlit("socket.timeout.ms");
    reveal_strlit("socket.connection.setup.timeout.ms");
    reveal_strlit("request.timeout.ms");
    reveal_strlit("metadata.max.age.ms");
    reveal_strlit("bootstrap.servers");
    reveal_strlit("group.id");
    reveal_strlit("auto.offset.reset");
    reveal_strlit("enable.auto.commit");
    assert("security.protocol"@[1] != "sasl.mechanisms"@[1]);
    assert("security.protocol"@[1] != "sasl.username"@[1]);
    assert("security.protocol"@[1] != "sasl.password"@[1]);
    assert("security.protocol"@[1] != "socket.timeout.ms"@[1]);
    assert("security.protocol"@[1] != "socket.connection.setup.timeout.ms"@[1]);
    assert("security.protocol"@[0] != "request.timeout.ms"@[0]);
    assert("security.protocol"@[0] != "metadata.max.age.ms"@[0]);
    assert("security.protocol"@[0] != "bootstrap.servers"@[0]);
    assert("security.protocol"@[0] != "group.id"@[0]);
    assert("security.protocol"@[0] != "auto.offset.reset"@[0]);
    assert("security.protocol"@[0] != "enable.auto.commit"@[0]);
    assert("sasl.mechanisms"@[5] != "sasl.username"@[5]);
    assert("sasl.mechanisms"@[5] != "sasl.password"@[5]);
    assert("sasl.mechanisms"@[1] != "socket.timeout.ms"@[1]);
    assert("sasl.mechanisms"@[1] != "socket.connection.setup.timeout.ms"@[1]);
    assert("sasl.mechanisms"@[0] != "request.timeout.ms"@[0]);
    assert("sasl.mechanisms"@[0] != "metadata.max.age.ms"@[0]);
    assert("sasl.mechanisms"@[0] != "bootstrap.servers"@[0]);
    assert("sasl.mechanisms"@[0] != "group.id"@[0]);
    assert("sasl.mechanisms"@[0] != "auto.offset.reset"@[0]);
    assert("sasl.mechanisms"@[0] != "enable.auto.commit"@[0]);
    assert("sasl.username"@[5] != "sasl.password"@[5]);
    assert("sasl.username"@[1] != "socket.timeout.ms"@[1]);
    assert("sasl.username"@[1] != "socket.connection.setup.timeout.ms"@[1]);
    assert("sasl.username"@[0] != "request.timeout.ms"@[0]);
    assert("sasl.username"@[0] != "metadata.max.age.ms"@[0]);
    assert("sasl.username"@[0] != "bootstrap.servers"@[0]);
    assert("sasl.username"@[0] != "group.id"@[0]);
    assert("sasl.username"@[0] != "auto.offset.reset"@[0]);
    assert("sasl.username"@[0] != "enable.auto.commit"@[0]);
    assert("sasl.password"@[1] != "socket.timeout.ms"@[1]);
    assert("sasl.password"@[1] != "socket.connection.setup.timeout.ms"@[1]);
    assert("sasl.password"@[0] != "request.timeout.ms"@[0]);
    assert("sasl.password"@[0] != "metadata.max.age.ms"@[0]);
    assert("sasl.password"@[0] != "bootstrap.servers"@[0]);
    assert("sasl.password"@[0] != "group.id"@[0]);
    assert("sasl.password"@[0] != "auto.offset.reset"@[0]);
    assert("sasl.password"@[0] != "enable.auto.commit"@[0]);
    assert("socket.timeout.ms"@[7] != "socket.connection.setup.timeout.ms"@[7]);
    assert("socket.timeout.ms"@[0] != "request.timeout.ms"@[0]);
    assert("socket.timeout.ms"@[0] != "metadata.max.age.ms"@[0]);
    assert("socket.timeout.ms"@[0] != "bootstrap.servers"@[0]);
    assert("socket.timeout.ms"@[0] != "group.id"@[0]);
    assert("socket.timeout.ms"@[0] != "auto.offset.reset"@[0]);
    assert("socket.timeout.ms"@[0] != "enable.auto.commit"@[0]);
    assert("socket.connection.setup.timeout.ms"@[0] != "request.timeout.ms"@[0]);
    assert("socket.connection.setup.timeout.ms"@[0] != "metadata.max.age.ms"@[0]);
    assert("socket.connection.setup.timeout.ms"@[0] != "bootstrap.servers"@[0]);
    assert("socket.connection.setup.timeout.ms"@[0] != "group.id"@[0]);
    assert("socket.connection.setup.timeout.ms"@[0] != "auto.offset.reset"@[0]);
    assert("socket.connection.setup.timeout.ms"@[0] != "enable.auto.commit"@[0]);
    assert("request.timeout.ms"@[0] != "metadata.max.age.ms"@[0]);
    assert("request.timeout.ms"@[0] != "bootstrap.servers"@[0]);
    assert("request.timeout.ms"@[0] != "group.id"@[0]);
    assert("request.timeout.ms"@[0] != "auto.offset.reset"@[0]);
    assert("request.timeout.ms"@[0] != "enable.auto.commit"@[0]);
    assert("metadata.max.age.ms"@[0] != "bootstrap.servers"@[0]);
    assert("metadata.max.age.ms"@[0] != "group.id"@[0]);
    assert("metadata.max.age.ms"@[0] != "auto.offset.reset"@[0]);
    assert("metadata.max.age.ms"@[0] != "enable.auto.commit"@[0]);
    assert("bootstrap.servers"@[0] != "group.id"@[0]);
    assert("bootstrap.servers"@[0] != "auto.offset.reset"@[0]);
    assert("bootstrap.servers"@[0] != "enable.auto.commit"@[0]);
    assert("group.id"@[0] != "auto.offset.reset"@[0]);
    assert("group.id"@[0] != "enable.auto.commit"@[0]);
    assert("auto.offset.reset"@[0] != "enable.auto.commit"@[0]);
}

/// What applying the security settings and then the timeouts does to
/// properties that hold none of their keys.
proof fn lemma_secured_props(base: Map<Seq<char>, Seq<char>>, security: SecurityConfig)
    requires
        !base.dom().contains("security.protocol"@),
        !base.dom().contains("sasl.mechanisms"@),
        !base.dom().contains("sasl.username"@),
        !base.dom().contains("sasl.password"@),
        !base.dom().contains("socket.timeout.ms"@),
        !base.dom().contains("socket.connection.setup.timeout.ms"@),
        !base.dom().contains("request.timeout.ms"@),
        !base.dom().contains("metadata.max.age.ms"@),
    ensures
        ({
            let p = with_timeouts(with_security(base, security));
            &&& security.security_protocol is Some ==> {
                &&& p.dom().contains("security.protocol"@)
                &&& p["security.protocol"@] == security.security_protocol->0@
            }
            &&& security.security_protocol is None ==> !p.dom().contains("security.protocol"@)
            &&& security.sasl_mechanism is Some ==> {
                &&& p.dom().contains("sasl.mechanisms"@)
                &&& p["sasl.mechanisms"@] == security.sasl_mechanism->0@
            }
            &&& security.sasl_mechanism is None ==> !p.dom().contains("sasl.mechanisms"@)
            &&& security.sasl_username is Some ==> {
                &&& p.dom().contains("sasl.username"@)
                &&& p["sasl.username"@] == security.sasl_username->0@
            }
            &&& security.sasl_username is None ==> !p.dom().contains("sasl.username"@)
            &&& security.sasl_password is Some ==> {
                &&& p.dom().contains("sasl.password"@)
                &&& p["sasl.password"@] == security.sasl_password->0@
            }
            &&& security.sasl_password is None ==> !p.dom().contains("sasl.password"@)
            &&& p.dom().contains("socket.timeout.ms"@)
            &&& p["socket.timeout.ms"@] == "10000"@
            &&& p.dom().contains("socket.connection.setup.timeout.ms"@)
            &&& p["socket.connection.setup.timeout.ms"@] == "5000"@
            &&& p.dom().contains("request.timeout.ms"@)
            &&& p["request.timeout.ms"@] == "10000"@
            &&& p.dom().contains("metadata.max.age.ms"@)
            &&& p["metadata.max.age.ms"@] == "60000"@
            &&& forall|k: Seq<char>| #[trigger] base.dom().contains(k) ==> {
                &&& p.dom().contains(k)
                &&& p[k] == base[k]
            }
            &&& forall|k: Seq<char>| #[trigger] p.dom().contains(k) ==> {
                ||| base.dom().contains(k)
                ||| k == "security.protocol"@
                ||| k == "sasl.mechanisms"@
                ||| k == "sasl.username"@
                ||| k == "sasl.password"@
                ||| k == "socket.timeout.ms"@
                ||| k == "socket.connection.setup.timeout.ms"@
                ||| k == "request.timeout.ms"@
                ||| k == "metadata.max.age.ms"@
            }
        }),
{
    lemma_property_keys_distinct();
}

/// The admin consumer is configured with the brokers, every security setting
/// that is present under its key and none that is absent, the network
/// timeouts, and nothing else.
pub proof fn lemma_admin_settings(brokers: Seq<char>, security: SecurityConfig)
    ensures
        ({
            let p = admin_props(brokers, security);
            &&& p.dom().contains("bootstrap.servers"@)
            &&& p["bootstrap.servers"@] == brokers
            &&& security.security_protocol is Some ==> {
                &&& p.dom().contains("security.protocol"@)
                &&& p["security.protocol"@] == security.security_protocol->0@
            }
            &&& security.security_protocol is None ==> !p.dom().contains("security.protocol"@)
            &&& security.sasl_mechanism is Some ==> {
                &&& p.dom().contains("sasl.mechanisms"@)
                &&& p["sasl.mechanisms"@] == security.sasl_mechanism->0@
            }
            &&& security.sasl_mechanism is None ==> !p.dom().contains("sasl.mechanisms"@)
            &&& security.sasl_username is Some ==> {
                &&& p.dom().contains("sasl.username"@)
                &&& p["sasl.username"@] == security.sasl_username->0@
            }
            &&& security.sasl_username is None ==> !p.dom().contains("sasl.username"@)
            &&& security.sasl_password is Some ==> {
                &&& p.dom().contains("sasl.password"@)
                &&& p["sasl.password"@] == security.sasl_password->0@
            }
            &&& security.sasl_password is None ==> !p.dom().contains("sasl.password"@)
            &&& p.dom().contains("socket.timeout.ms"@)
            &&& p["socket.timeout.ms"@] == "10000"@
            &&& p.dom().contains("socket.connection.setup.timeout.ms"@)
            &&& p["socket.connection.setup.timeout.ms"@] == "5000"@
            &&& p.dom().contains("request.timeout.ms"@)
            &&& p["request.timeout.ms"@] == "10000"@
            &&& p.dom().contains("metadata.max.age.ms"@)
            &&& p["metadata.max.age.ms"@] == "60000"@
            &&& forall|k: Seq<char>| #[trigger] p.dom().contains(k) ==> {
                ||| k == "bootstrap.servers"@
                ||| k == "security.protocol"@
                ||| k == "sasl.mechanisms"@
                ||| k == "sasl.username"@
                ||| k == "sasl.password"@
                ||| k == "socket.timeout.ms"@
                ||| k == "socket.connection.setup.timeout.ms"@
                ||| k == "request.timeout.ms"@
                ||| k == "metadata.max.age.ms"@
            }
        }),
{
    lemma_property_keys_distinct();
    let base = Map::<Seq<char>, Seq<char>>::empty().insert("bootstrap.servers"@, brokers);
    lemma_secured_props(base, security);
}

/// A topic's live consumer is configured with the brokers, the group of the
/// dashboard's group id, a hyphen and the topic, the latest offset, automatic
/// commits, every security setting that is present under its key and none
/// that is absent, the network timeouts, and nothing else.
pub proof fn lemma_topic_consumer_settings(
    brokers: Seq<char>,
    topic: Seq<char>,
    group_id: Seq<char>,
    security: SecurityConfig,
)
    ensures
        ({
            let p = topic_consumer_props(brokers, topic, group_id, security);
            &&& p.dom().contains("bootstrap.servers"@)
            &&& p["bootstrap.servers"@] == brokers
            &&& p.dom().contains("group.id"@)
            &&& p["group.id"@] == group_id + "-"@ + topic
            &&& p.dom().contains("auto.offset.reset"@)
            &&& p["auto.offset.reset"@] == "latest"@
            &&& p.dom().contains("enable.auto.commit"@)
            &&& p["enable.auto.commit"@] == "true"@
            &&& security.security_protocol is Some ==> {
                &&& p.dom().contains("security.protocol"@)
                &&& p["security.protocol"@] == security.security_protocol->0@
            }
            &&& security.security_protocol is None ==> !p.dom().contains("security.protocol"@)
            &&& security.sasl_mechanism is Some ==> {
                &&& p.dom().contains("sasl.mechanisms"@)
                &&& p["sasl.mechanisms"@] == security.sasl_mechanism->0@
            }
            &&& security.sasl_mechanism is None ==> !p.dom().contains("sasl.mechanisms"@)
            &&& security.sasl_username is Some ==> {
                &&& p.dom().contains("sasl.username"@)
                &&& p["sasl.username"@] == security.sasl_username->0@
            }
            &&& security.sasl_username is None ==> !p.dom().contains("sasl.username"@)
            &&& security.sasl_password is Some ==> {
                &&& p.dom().contains("sasl.password"@)
                &&& p["sasl.password"@] == security.sasl_password->0@
            }
            &&& security.sasl_password is None ==> !p.dom().contains("sasl.password"@)
            &&& p.dom().contains("socket.timeout.ms"@)
            &&& p["socket.timeout.ms"@] == "10000"@
            &&& p.dom().contains("socket.connection.setup.timeout.ms"@)
            &&& p["socket.connection.setup.timeout.ms"@] == "5000"@
            &&& p.dom().contains("request.timeout.ms"@)
            &&& p["request.timeout.ms"@] == "10000"@
            &&& p.dom().contains("metadata.max.age.ms"@)
            &&& p["metadata.max.age.ms"@] == "60000"@
            &&& forall|k: Seq<char>| #[trigger] p.dom().contains(k) ==> {
                ||| k == "bootstrap.servers"@
                ||| k == "group.id"@
                ||| k == "auto.offset.reset"@
                ||| k == "enable.auto.commit"@
                ||| k == "security.protocol"@
                ||| k == "sasl.mechanisms"@
                ||| k == "sasl.username"@
                ||| k == "sasl.password"@
                ||| k == "socket.timeout.ms"@
                ||| k == "socket.connection.setup.timeout.ms"@
                ||| k == "request.timeout.ms"@
                ||| k == "metadata.max.age.ms"@
            }
        }),
{
    lemma_property_keys_distinct();
    let base = Map::<Seq<char>, Seq<char>>::empty().insert("bootstrap.servers"@, brokers).insert(
        "group.id"@,
        topic_group(group_id, topic),
    ).insert("auto.offset.reset"@, "latest"@).insert("enable.auto.commit"@, "true"@);
    lemma_secured_props(base, security);
}

/// A seek consumer is configured with the brokers, the group
/// `kafka-dashboard-seek`, no automatic commits, every security setting that
/// is present under its key and none that is absent, the network timeouts,
/// and nothing else.
pub proof fn lemma_seek_consumer_settings(brokers: Seq<char>, security: SecurityConfig)
    ensures
        ({
            let p = seek_consumer_props(brokers, security);
            &&& p.dom().contains("bootstrap.servers"@)
            &&& p["bootstrap.servers"@] == brokers
            &&& p.dom().contains("group.id"@)
            &&& p["group.id"@] == "kafka-dashboard-seek"@
            &&& p.dom().contains("enable.auto.commit"@)
            &&& p["enable.auto.commit"@] == "false"@
            &&& security.security_protocol is Some ==> {
                &&& p.dom().contains("security.protocol"@)
                &&& p["security.protocol"@] == security.security_protocol->0@
            }
            &&& security.security_protocol is None ==> !p.dom().contains("security.protocol"@)
            &&& security.sasl_mechanism is Some ==> {
                &&& p.dom().contains("sasl.mechanisms"@)
                &&& p["sasl.mechanisms"@] == security.sasl_mechanism->0@
            }
            &&& security.sasl_mechanism is None ==> !p.dom().contains("sasl.mechanisms"@)
            &&& security.sasl_username is Some ==> {
                &&& p.dom().contains("sasl.username"@)
                &&& p["sasl.username"@] == security.sasl_username->0@
            }
            &&& security.sasl_username is None ==> !p.dom().contains("sasl.username"@)
            &&& security.sasl_password is Some ==> {
                &&& p.dom().contains("sasl.password"@)
                &&& p["sasl.password"@] == security.sasl_password->0@
            }
            &&& security.sasl_password is None ==> !p.dom().contains("sasl.password"@)
            &&& p.dom().contains("socket.timeout.ms"@)
            &&& p["socket.timeout.ms"@] == "10000"@
            &&& p.dom().contains("socket.connection.setup.timeout.ms"@)
            &&& p["socket.connection.setup.timeout.ms"@] == "5000"@
            &&& p.dom().contains("request.timeout.ms"@)
            &&& p["request.timeout.ms"@] == "10000"@
            &&& p.dom().contains("metadata.max.age.ms"@)
            &&& p["metadata.max.age.ms"@] == "60000"@
            &&& forall|k: Seq<char>| #[trigger] p.dom().contains(k) ==> {
                ||| k == "bootstrap.servers"@
                ||| k == "group.id"@
                ||| k == "enable.auto.commit"@
                ||| k == "security.protocol"@
                ||| k == "sasl.mechanisms"@
                ||| k == "sasl.username"@
                ||| k == "sasl.password"@
                ||| k == "socket.timeout.ms"@
                ||| k == "socket.connection.setup.timeout.ms"@
                ||| k == "request.timeout.ms"@
                ||| k == "metadata.max.age.ms"@
            }
        }),
{
    lemma_property_keys_distinct();
    let base = Map::<Seq<char>, Seq<char>>::empty().insert("bootstrap.servers"@, brokers).insert(
        "group.id"@,
        "kafka-dashboard-seek"@,
    ).insert("enable.auto.commit"@, "false"@);
    lemma_secured_props(base, security);
}


} // verus!
