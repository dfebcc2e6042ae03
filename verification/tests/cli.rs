use krabka_admin::cli::admin::{
    acl_created_line, acl_entry_line, any_failed, check_config_alter, check_feature_update, check_reassignment,
    config_changes, config_line, create_specs, feature_level, feature_line, group_offset_line, key_value, offset_line,
    kafka_error_json, outcome_lines, outcome_result, reassignment_incomplete, reassignment_line, reset_line, topic_configs, topic_line_text,
    AclOperation, AclPermission, AclsRequest, ConfigChange, ConsumerGroupsRequest, FeatureRange, TopicsAction,
    TopicsRequest,
};
use krabka_admin::cli::connection::{
    bootstrap_host, bootstrap_target, connection_settings, jaas_options, parse_properties, property_split,
    required, required_from, sasl_credentials, security, BootstrapTarget, ConnectionError, ListenerProtocol,
    SaslSettings, ScramMechanism, Secret,
};
use krabka_admin::cli::output::{error_line, CommandResult, OutputFormat};
use krabka_admin::cli::process::{
    admin_exit_code, default_log_filter, exit_status_code, external_binary, interrupt_message, spawn_failure,
    AdminRun, LONG_EXTERNAL_HELP, SHORT_EXTERNAL_HELP,
};
use krabka_admin::cli::property_map::PropertyMap;
use krabka_admin::cli::report::{
    acl_created_result, acl_entries_result, configs_result, created_topics_result, features_result, group_offsets_result, offsets_reset_result, reassignment_result,
    topic_metadata_result, AclEntryText,
};
use krabka_admin::dto::{KafkaErrorDto, TopicRow};

fn props(pairs: &[(&str, &str)]) -> PropertyMap {
    let mut m = PropertyMap::new();
    for (k, v) in pairs {
        m.insert(k.to_string(), v.to_string());
    }
    m
}

fn config_message(e: ConnectionError) -> String {
    match e {
        ConnectionError::Config(m) => m,
        _ => panic!("expected a config error"),
    }
}

#[test]
fn key_value_parser_preserves_equals_in_value() {
    assert!(key_value("a=b=c").unwrap() == ("a".into(), "b=c".into()));
    assert!(key_value("missing").is_err());
}

#[test]
fn properties_support_comments_escapes_and_continuations() {
    let parsed = parse_properties("! ignored\na\\:b = one\\\n  two\\u0033\n").unwrap();
    assert!(parsed.get("a:b") == Some("onetwo3".to_string()));
    assert!(parsed.get("! ignored").is_none());
    assert!(parsed.get("a").is_none());
}

#[test]
fn secret_never_renders_its_value() {
    let secret = Secret("hunter2".to_string());
    assert!(secret.redacted() == "[redacted]");
    assert!(secret.0 == "hunter2");
}

#[test]
fn parses_plain_security() {
    let host = bootstrap_host(&vec!["broker.example:9092".to_string()], &Vec::new());
    let mut props = props(&[
        ("security.protocol", "SASL_PLAINTEXT"),
        ("sasl.mechanism", "PLAIN"),
        ("sasl.jaas.config", "x required username=\"alice\" password=\"secret\";"),
    ]);
    let policy = security(&props, &host).ok().unwrap().unwrap();
    assert!(policy.protocol == ListenerProtocol::SaslPlaintext);
    assert!(matches!(policy.sasl, Some(SaslSettings::Plain { .. })));
    props.insert("security.protocol".into(), "PLAINTEXT".into());
    assert!(security(&PropertyMap::new(), "localhost").ok().unwrap().is_none());
}

#[test]
fn jaas_options_preserve_quoted_spaces_and_escapes() {
    let options = jaas_options(r#"x required username="alice smith" password="two\" words";"#);
    assert!(options.get("password") == Some("two\" words".to_string()));
    assert!(options.get("username") == Some("alice smith".to_string()));
    assert!(options.get("x").is_none());
    assert!(options.get("required").is_none());
}

#[test]
fn bootstrap_host_preserves_ipv6() {
    assert!(bootstrap_host(&vec!["[2001:db8::1]:9092".to_string()], &Vec::new()) == "2001:db8::1");
    assert!(bootstrap_host(&vec!["broker.example:9092".to_string()], &Vec::new()) == "broker.example");
}

#[test]
fn explicit_request_timeout_overrides_command_config() {
    let properties = parse_properties("request.timeout.ms=9000\n").ok().unwrap();
    let settings = connection_settings(None, Some(1234), &properties, "broker.example", "test", "1.0.0")
        .ok()
        .unwrap();
    assert!(settings.request_timeout_ms == 1234);
}

#[test]
fn the_command_config_timeout_applies_without_a_flag() {
    let properties = parse_properties("request.timeout.ms=9000\n").ok().unwrap();
    let settings = connection_settings(None, None, &properties, "h", "topics", "1.2.3").ok().unwrap();
    assert!(settings.request_timeout_ms == 9000);
    assert!(settings.client_id == "krabka-cli/1.2.3 topics");
    assert!(settings.security.is_none());
    let defaults = connection_settings(None, None, &PropertyMap::new(), "h", "acls", "1.2.3").ok().unwrap();
    assert!(defaults.request_timeout_ms == 30000);
}

#[test]
fn a_client_id_flag_wins_over_the_command_config() {
    let properties = props(&[("client.id", "from-file")]);
    let flagged = connection_settings(Some("from-flag".to_string()), None, &properties, "h", "c", "v").ok().unwrap();
    assert!(flagged.client_id == "from-flag");
    let from_file = connection_settings(None, None, &properties, "h", "c", "v").ok().unwrap();
    assert!(from_file.client_id == "from-file");
}

#[test]
fn a_timeout_that_is_not_a_positive_integer_is_refused() {
    let text = props(&[("request.timeout.ms", "soon")]);
    let e = connection_settings(None, None, &text, "h", "c", "v").err().unwrap();
    assert!(e.message() == "invalid command config: request.timeout.ms must be an integer");
    let zero = props(&[("request.timeout.ms", "0")]);
    let e = connection_settings(None, None, &zero, "h", "c", "v").err().unwrap();
    assert!(config_message(e) == "request.timeout.ms must be positive");
    let e = connection_settings(None, Some(-5), &PropertyMap::new(), "h", "c", "v").err().unwrap();
    assert!(config_message(e) == "request.timeout.ms must be positive");
    let big = props(&[("request.timeout.ms", "99999999999999999999")]);
    assert!(connection_settings(None, None, &big, "h", "c", "v").is_err());
}

#[test]
fn a_later_property_replaces_an_earlier_one() {
    let parsed = parse_properties("a=1\na=2\nb : x y\nc\td\n").ok().unwrap();
    assert!(parsed.get("a") == Some("2".to_string()));
    assert!(parsed.get("b") == Some("x y".to_string()));
    assert!(parsed.get("c") == Some("d".to_string()));
}

#[test]
fn property_escapes_cover_tabs_newlines_and_unicode() {
    let parsed = parse_properties("k=a\\tb\\nc\\rd\\u0041\\qz\\\n").ok().unwrap();
    assert!(parsed.get("k") == Some("a\tb\nc\rdAqz".to_string()));
    let crlf = parse_properties("x=1\r\ny=2\r\n").ok().unwrap();
    assert!(crlf.get("x") == Some("1".to_string()));
    assert!(crlf.get("y") == Some("2".to_string()));
}

#[test]
fn a_bad_unicode_escape_is_refused() {
    let e = parse_properties("k=\\uzz\n").err().unwrap();
    assert!(config_message(e) == "invalid unicode escape");
    let e = parse_properties("k=\\ud800\n").err().unwrap();
    assert!(config_message(e) == "invalid unicode code point");
}

#[test]
fn the_key_ends_at_the_first_unescaped_separator() {
    let line: Vec<char> = "a\\=b=c".chars().collect();
    assert!(property_split(&line) == 4);
    let bare: Vec<char> = "abc".chars().collect();
    assert!(property_split(&bare) == 3);
}

#[test]
fn required_properties_name_what_is_missing() {
    let m = props(&[("present", "yes")]);
    assert!(required(&m, "present").ok() == Some("yes".to_string()));
    assert!(config_message(required_from(&m, "absent").err().unwrap()) == "missing absent");
}

#[test]
fn each_sasl_mechanism_reads_its_own_settings() {
    let scram = props(&[
        ("sasl.mechanism", "SCRAM-SHA-512"),
        ("sasl.jaas.config", "m required username=u password='p w';"),
    ]);
    match sasl_credentials(&scram).ok().unwrap() {
        SaslSettings::Scram { mechanism, username, password } => {
            assert!(mechanism == ScramMechanism::ScramSha512);
            assert!(username == "u");
            assert!(password == "p w");
        },
        _ => panic!("expected SCRAM"),
    }
    let gssapi = props(&[
        ("sasl.mechanism", "GSSAPI"),
        ("sasl.jaas.config", "k required keyTab=/etc/k.keytab principal=svc@REALM"),
        ("sasl.kerberos.kdc", "kdc.example"),
    ]);
    match sasl_credentials(&gssapi).ok().unwrap() {
        SaslSettings::Gssapi { keytab_path, client_principal, service_name, kdc_url } => {
            assert!(keytab_path == "/etc/k.keytab");
            assert!(client_principal == "svc@REALM");
            assert!(service_name == "kafka");
            assert!(kdc_url == "kdc.example");
        },
        _ => panic!("expected GSSAPI"),
    }
    let bearer = props(&[("sasl.mechanism", "OAUTHBEARER"), ("sasl.oauthbearer.token.file", "/run/token")]);
    assert!(matches!(sasl_credentials(&bearer).ok().unwrap(), SaslSettings::OAuthBearer { .. }));
    let endpoint = props(&[
        ("sasl.mechanism", "OAUTHBEARER"),
        ("sasl.oauthbearer.token.endpoint.url", "https://idp"),
    ]);
    assert!(
        config_message(sasl_credentials(&endpoint).err().unwrap())
            == "sasl.oauthbearer.token.endpoint.url needs client-rs token-endpoint support"
    );
    let unknown = props(&[("sasl.mechanism", "MAGIC")]);
    assert!(config_message(sasl_credentials(&unknown).err().unwrap()) == "unsupported sasl.mechanism MAGIC");
    let no_password = props(&[("sasl.mechanism", "PLAIN"), ("sasl.jaas.config", "x required username=a;")]);
    assert!(config_message(sasl_credentials(&no_password).err().unwrap()) == "missing password");
}

#[test]
fn tls_settings_come_from_pem_properties() {
    let tls = props(&[
        ("security.protocol", "SSL"),
        ("ssl.truststore.location", "/ca.pem"),
        ("ssl.keystore.location", "/cert.pem"),
        ("ssl.key.location", "/key.pem"),
    ]);
    let s = security(&tls, "broker.example").ok().unwrap().unwrap();
    let t = s.tls.unwrap();
    assert!(t.server_name == "broker.example");
    assert!(t.trust_roots_pem == Some("/ca.pem".to_string()));
    assert!(t.client_identity == Some(("/cert.pem".to_string(), "/key.pem".to_string())));
    assert!(s.sasl.is_none());
    let jks = props(&[("security.protocol", "SSL"), ("ssl.truststore.type", "JKS")]);
    assert!(config_message(security(&jks, "h").err().unwrap()) == "ssl.truststore.type=JKS is unsupported; expected PEM");
    let half = props(&[("security.protocol", "SASL_SSL"), ("ssl.key.location", "/key.pem")]);
    assert!(
        config_message(security(&half, "h").err().unwrap())
            == "ssl.keystore.location and ssl.key.location must be provided together"
    );
    let unknown = props(&[("security.protocol", "QUIC")]);
    assert!(config_message(security(&unknown, "h").err().unwrap()) == "unsupported security.protocol QUIC");
}

#[test]
fn a_command_needs_a_bootstrap_address() {
    let none: Vec<String> = Vec::new();
    let brokers = vec!["b:9092".to_string()];
    let controllers = vec!["c:9093".to_string()];
    assert!(matches!(bootstrap_target(&none, &none), Err(ConnectionError::MissingBootstrap)));
    assert!(matches!(bootstrap_target(&brokers, &none), Ok(BootstrapTarget::Brokers)));
    assert!(matches!(bootstrap_target(&brokers, &controllers), Ok(BootstrapTarget::Controllers)));
    assert!(bootstrap_host(&none, &controllers) == "c");
    assert!(bootstrap_host(&none, &none) == "localhost");
    assert!(
        ConnectionError::MissingBootstrap.message()
            == "one of --bootstrap-server or --bootstrap-controller is required"
    );
}

#[test]
fn feature_levels_are_sixteen_bit_integers() {
    assert!(feature_level("metadata.version=20").unwrap() == ("metadata.version".to_string(), 20));
    assert!(feature_level("x=-3").unwrap() == ("x".to_string(), -3));
    assert!(feature_level("x=40000").unwrap_err() == "feature level must be an integer");
    assert!(feature_level("x=").unwrap_err() == "feature level must be an integer");
    assert!(feature_level("x").unwrap_err() == "expected key=value");
}

#[test]
fn destructive_and_read_only_admin_misuse_fails_before_connecting() {
    let acls = AclsRequest {
        list: false,
        add: false,
        remove: true,
        topic: None,
        allow_principal: None,
        deny_principal: None,
        operation: None,
        host: "*".to_string(),
        yes: true,
    };
    assert!(acls.check().unwrap_err().contains("scope filter"));

    let topics = TopicsRequest {
        create: false,
        delete: false,
        list: true,
        describe: false,
        topics: Vec::new(),
        yes: false,
        dry_run: true,
    };
    assert!(topics.check().unwrap_err().contains("only valid"));
}

#[test]
fn topic_commands_refuse_what_they_cannot_do() {
    let mut t = TopicsRequest {
        create: true,
        delete: false,
        list: false,
        describe: false,
        topics: Vec::new(),
        yes: false,
        dry_run: false,
    };
    assert!(t.check().unwrap_err() == "--topic is required for this operation");
    t.create = false;
    t.delete = true;
    t.topics = vec!["orders".to_string()];
    assert!(t.check().unwrap_err() == "topic deletion requires --yes (or --dry-run)");
    t.dry_run = true;
    assert!(t.check().is_ok());
    assert!(t.dry_run_lines() == vec!["Would change topic orders".to_string()]);
}

#[test]
fn outcome_lines_report_each_resource() {
    let outcomes = vec![
        ("orders".to_string(), None),
        (
            "payments".to_string(),
            Some(KafkaErrorDto { code: 36, name: "TOPIC_ALREADY_EXISTS".to_string(), message: None }),
        ),
    ];
    let lines = outcome_lines(&outcomes, "Created topic ");
    assert!(lines == vec!["Created topic orders.".to_string(), "payments\tERROR\tTOPIC_ALREADY_EXISTS (36)".to_string()]);
    assert!(any_failed(&outcomes));
    assert!(!any_failed(&vec![("a".to_string(), None)]));
}

#[test]
fn listing_and_describing_lines() {
    assert!(topic_line_text(true, "orders", 3, 1) == "Topic: orders\tPartitionCount: 3\tReplicationFactor: 1");
    assert!(topic_line_text(false, "orders", 3, 1) == "orders");
    assert!(config_line("orders", "retention.ms", "10") == "orders\tretention.ms=10");
    assert!(check_config_alter(0, 0).unwrap_err() == "--alter requires --add-config or --delete-config");
    assert!(check_config_alter(1, 0).is_ok());
    assert!(offset_line("workers", "\"orders\"", 0, 42) == "workers\t\"orders\"\t0\t42");
}

#[test]
fn acl_requests_build_their_scope_and_grant() {
    let request = AclsRequest {
        list: false,
        add: true,
        remove: false,
        topic: Some("orders".to_string()),
        allow_principal: None,
        deny_principal: Some("User:bob".to_string()),
        operation: Some(AclOperation::Read),
        host: "*".to_string(),
        yes: false,
    };
    assert!(request.check().is_ok());
    let scope = request.scope();
    assert!(scope.host.is_none());
    assert!(scope.principal == Some("User:bob".to_string()));
    assert!(scope.permission == Some(AclPermission::Deny));
    let grant = request.grant().ok().unwrap();
    assert!(grant.topic == "orders" && grant.principal == "User:bob" && grant.host == "*");
    assert!(grant.operation == AclOperation::Read && grant.permission == AclPermission::Deny);
    let mut no_op = request;
    no_op.operation = None;
    assert!(no_op.grant().err() == Some("--operation is required".to_string()));
    assert!(acl_created_line(true) == "ACL creation failed");
    assert!(acl_created_line(false) == "ACL created");
    assert!(acl_entry_line("Topic", "orders", "User:bob", "Read", "Deny") == "Topic\torders\tUser:bob\tRead\tDeny");
}

#[test]
fn offset_resets_need_confirmation_and_a_full_target() {
    let mut g = ConsumerGroupsRequest {
        describe: false,
        reset_offsets: true,
        group: "workers".to_string(),
        topic: Some("orders".to_string()),
        partition: Some(0),
        to_offset: Some(42),
        yes: false,
    };
    assert!(g.check().unwrap_err() == "offset reset requires --yes");
    g.yes = true;
    g.partition = Some(-1);
    assert!(g.check().unwrap_err() == "--partition and --to-offset must be non-negative");
    g.partition = None;
    assert!(g.reset().err() == Some("--partition is required with --reset-offsets".to_string()));
    g.partition = Some(0);
    let reset = g.reset().ok().unwrap();
    assert!(reset.topic == "orders" && reset.partition == 0 && reset.offset == 42);
    assert!(reset_line("workers", "orders", 0, &None) == "Reset group workers topic orders partition 0.");
    let refused = Some(KafkaErrorDto { code: 25, name: "UNKNOWN_MEMBER_ID".to_string(), message: None });
    assert!(reset_line("workers", "orders", 0, &refused) == "workers\torders\t0\tERROR\tUNKNOWN_MEMBER_ID (25)");
}

#[test]
fn feature_lines_show_the_finalized_range() {
    let supported = FeatureRange { name: "metadata.version".to_string(), min_version: 1, max_version: 20 };
    let finalized = vec![FeatureRange { name: "metadata.version".to_string(), min_version: 1, max_version: 19 }];
    assert!(feature_line(&supported, &finalized) == "metadata.version\t1-20\t1-19");
    assert!(feature_line(&supported, &Vec::new()) == "metadata.version\t1-20\t-");
    assert!(check_feature_update(true, true, 1).is_err());
    assert!(check_feature_update(true, false, 0).is_err());
    assert!(check_feature_update(false, true, 2).is_ok());
}

#[test]
fn reassignment_needs_one_action_and_confirmation() {
    assert!(check_reassignment(true, true, true).unwrap_err() == "choose --execute or --verify");
    assert!(check_reassignment(true, false, false).unwrap_err() == "reassignment execution requires --yes");
    assert!(check_reassignment(false, true, false).is_ok());
    assert!(reassignment_incomplete(true, "InProgress"));
    assert!(!reassignment_incomplete(true, "InSync"));
    assert!(!reassignment_incomplete(false, "InProgress"));
    assert!(reassignment_line("orders", "InSync") == "orders: InSync");
}

#[test]
fn command_result_emits_human_and_json() {
    let mut object = serde_json::Map::new();
    object.insert("topic".to_string(), serde_json::Value::String("orders".to_string()));
    let data = serde_json::Value::Object(object);
    let result = CommandResult::success(vec!["ok".into()], data.clone());
    assert!(result.human_text().as_bytes() == b"ok\n");
    assert!(result.data == data);
    assert!(!result.failed);
    assert!(error_line("boom") == "krabka: boom");
    assert!(OutputFormat::default() == OutputFormat::Human);
}

#[test]
fn a_failed_spawn_distinguishes_missing_from_unrunnable() {
    let binary = external_binary("gres");
    assert!(binary == "krabka-gres");
    let (missing, lines) = spawn_failure(true, &binary, "gres", "not found");
    assert!(missing == 127);
    assert!(lines[0] == "krabka: `gres` is not a krabka command, and no `krabka-gres` was found on PATH");
    assert!(spawn_failure(false, &binary, "gres", "permission denied").0 == 126);
    assert!(spawn_failure(false, &binary, "gres", "other").0 == 126);
}

#[test]
fn exit_codes_follow_the_shell() {
    assert!(exit_status_code(Some(3), None) == 3);
    assert!(exit_status_code(None, Some(9)) == 137);
    assert!(exit_status_code(None, None) == 1);
    assert!(admin_exit_code(AdminRun::Completed { failed: false, written: true }) == 0);
    assert!(admin_exit_code(AdminRun::Completed { failed: true, written: true }) == 1);
    assert!(admin_exit_code(AdminRun::Completed { failed: false, written: false }) == 1);
    assert!(admin_exit_code(AdminRun::Failed) == 1);
    assert!(admin_exit_code(AdminRun::Interrupted) == 130);
    assert!(interrupt_message(None) == "interrupted");
    assert!(interrupt_message(Some("no tty")) == "Ctrl-C handler failed: no tty");
}

#[test]
fn verbosity_flags_pick_the_log_filter() {
    assert!(default_log_filter(0, 0) == "info");
    assert!(default_log_filter(1, 0) == "debug");
    assert!(default_log_filter(3, 0) == "trace");
    assert!(default_log_filter(0, 1) == "warn");
}

#[test]
fn long_help_documents_the_external_subcommand_convention() {
    let help = LONG_EXTERNAL_HELP;
    assert!(help.contains("krabka-<name>"));
    assert!(help.contains("PATH"));
    assert!(help.contains("run time"));
    assert!(help.contains("restore"));
    assert!(help.contains("krabka-restore"));
    assert!(help.contains("krabka-broker"));
    assert!(help.contains("gres"));
    assert!(help.contains("krabka-gres"));
}

#[test]
fn short_help_points_at_the_external_subcommand_convention() {
    let help = SHORT_EXTERNAL_HELP;
    assert!(help.contains("krabka-<name>"));
    assert!(help.contains("PATH"));
    assert!(help.contains("restore"));
    assert!(help.contains("gres"));
}

#[test]
fn the_topics_command_picks_one_action() {
    let mut t = TopicsRequest {
        create: true,
        delete: false,
        list: false,
        describe: false,
        topics: vec!["orders".to_string()],
        yes: false,
        dry_run: true,
    };
    assert!(t.action() == TopicsAction::DryRun);
    t.dry_run = false;
    assert!(t.action() == TopicsAction::Create);
    t.create = false;
    t.describe = true;
    assert!(t.action() == TopicsAction::Metadata { describe: true });
}

#[test]
fn a_repeated_topic_config_keeps_its_last_value() {
    let configs = topic_configs(&vec![
        ("retention.ms".to_string(), "1".to_string()),
        ("cleanup.policy".to_string(), "compact".to_string()),
        ("retention.ms".to_string(), "2".to_string()),
    ]);
    assert!(configs.get("retention.ms") == Some("2".to_string()));
    assert!(configs.get("cleanup.policy") == Some("compact".to_string()));
    assert!(!configs.contains_key("segment.ms"));
    let entries = configs.entries();
    assert!(entries == vec![
        ("cleanup.policy".to_string(), "compact".to_string()),
        ("retention.ms".to_string(), "2".to_string()),
    ]);
}

#[test]
fn config_changes_set_before_they_delete() {
    let changes = config_changes(&vec![("a".to_string(), "1".to_string())], &vec!["b".to_string()]);
    assert!(changes.len() == 2);
    assert!(matches!(&changes[0], ConfigChange::Put { key, value } if key == "a" && value == "1"));
    assert!(matches!(&changes[1], ConfigChange::Delete { key } if key == "b"));
}

#[test]
fn a_group_offset_line_shows_the_topic_as_json() {
    assert!(group_offset_line("workers", "orders", 0, 42) == "workers\t\"orders\"\t0\t42");
    assert!(group_offset_line("g", "a\"b", 1, -1) == "g\t\"a\\\"b\"\t1\t-1");
}

#[test]
fn create_specs_share_partitions_replicas_and_configs() {
    let topics = vec!["orders".to_string(), "payments".to_string()];
    let configs = vec![
        ("retention.ms".to_string(), "1".to_string()),
        ("cleanup.policy".to_string(), "compact".to_string()),
        ("retention.ms".to_string(), "2".to_string()),
    ];
    let specs = create_specs(&topics, 3, 2, &configs);
    assert!(specs.len() == 2);
    assert!(specs[0].name == "orders" && specs[1].name == "payments");
    for spec in &specs {
        assert!(spec.partitions == 3 && spec.replicas == 2);
        let mut entries = spec.configs.clone();
        entries.sort();
        assert!(
            entries
                == vec![
                    ("cleanup.policy".to_string(), "compact".to_string()),
                    ("retention.ms".to_string(), "2".to_string())
                ]
        );
    }
    assert!(create_specs(&Vec::new(), 1, 1, &configs).is_empty());
}

#[test]
fn a_dry_run_reports_each_topic_and_does_not_fail() {
    let request = TopicsRequest {
        create: false,
        delete: true,
        list: false,
        describe: false,
        topics: vec!["orders".to_string(), "payments".to_string()],
        yes: false,
        dry_run: true,
    };
    assert!(request.check().is_ok());
    assert!(request.action() == TopicsAction::DryRun);
    let result = request.dry_run_result();
    assert!(result.human == vec!["Would change topic orders".to_string(), "Would change topic payments".to_string()]);
    let mut expected = serde_json::Map::new();
    expected.insert(
        "topics".to_string(),
        serde_json::Value::Array(vec![
            serde_json::Value::String("orders".to_string()),
            serde_json::Value::String("payments".to_string()),
        ]),
    );
    expected.insert("dry_run".to_string(), serde_json::Value::Bool(true));
    assert!(result.data == serde_json::Value::Object(expected));
    assert!(result.data.to_string() == r#"{"dry_run":true,"topics":["orders","payments"]}"#);
    assert!(!result.failed);
}

#[test]
fn a_complete_grant_and_reset_succeed() {
    let request = AclsRequest {
        list: false,
        add: true,
        remove: false,
        topic: Some("orders".to_string()),
        allow_principal: Some("User:alice".to_string()),
        deny_principal: None,
        operation: Some(AclOperation::Write),
        host: "10.0.0.1".to_string(),
        yes: false,
    };
    let grant = request.grant().ok().unwrap();
    assert!(grant.principal == "User:alice" && grant.permission == AclPermission::Allow && grant.host == "10.0.0.1");
    let mut missing_topic = request;
    missing_topic.topic = None;
    assert!(missing_topic.grant().is_err());
    let g = ConsumerGroupsRequest {
        describe: false,
        reset_offsets: true,
        group: "workers".to_string(),
        topic: Some("payments".to_string()),
        partition: Some(7),
        to_offset: Some(0),
        yes: true,
    };
    let reset = g.reset().ok().unwrap();
    assert!(reset.topic == "payments" && reset.partition == 7 && reset.offset == 0);
}

#[test]
fn a_group_offset_line_escapes_control_characters() {
    assert!(group_offset_line("g", "a\u{1}b", 0, 1) == "g\t\"a\\u0001b\"\t0\t1");
    assert!(group_offset_line("g", "t\tab\n", 2, 3) == "g\t\"t\\tab\\n\"\t2\t3");
    assert!(group_offset_line("g", "back\\slash", 0, 0) == "g\t\"back\\\\slash\"\t0\t0");
}

#[test]
fn outcome_results_carry_lines_rows_and_the_failure() {
    let refused = KafkaErrorDto { code: 36, name: "TOPIC_ALREADY_EXISTS".to_string(), message: Some("exists".to_string()) };
    let outcomes = vec![("orders".to_string(), None), ("payments".to_string(), Some(refused.clone()))];
    let result = outcome_result(&outcomes, "Deleted topic ", "topic");
    assert!(result.human == vec!["Deleted topic orders.".to_string(), "payments\tERROR\tTOPIC_ALREADY_EXISTS (36)".to_string()]);
    assert!(result.failed);
    assert!(
        result.data.to_string()
            == r#"[{"error":null,"topic":"orders"},{"error":{"code":36,"message":"exists","name":"TOPIC_ALREADY_EXISTS"},"topic":"payments"}]"#
    );
    let fine = outcome_result(&vec![("metadata.version".to_string(), None)], "Updated feature ", "feature");
    assert!(!fine.failed);
    assert!(fine.data.to_string() == r#"[{"error":null,"feature":"metadata.version"}]"#);
    assert!(kafka_error_json(&None) == serde_json::Value::Null);
    let quiet = KafkaErrorDto { code: -1, name: "UNKNOWN_SERVER_ERROR".to_string(), message: None };
    assert!(kafka_error_json(&Some(quiet)).to_string() == r#"{"code":-1,"message":null,"name":"UNKNOWN_SERVER_ERROR"}"#);
}

#[test]
fn topic_reports_carry_lines_rows_and_the_failure() {
    let refused = KafkaErrorDto { code: 36, name: "TOPIC_ALREADY_EXISTS".to_string(), message: None };
    let outcomes = vec![("orders".to_string(), None), ("payments".to_string(), Some(refused.clone()))];
    let ids = vec![Some("id-1".to_string()), None];
    let created = created_topics_result(&outcomes, &ids);
    assert!(created.human == vec!["Created topic orders.".to_string(), "payments\tERROR\tTOPIC_ALREADY_EXISTS (36)".to_string()]);
    assert!(created.failed);
    assert!(
        created.data.to_string()
            == r#"[{"error":null,"topic":"orders","topic_id":"id-1"},{"error":{"code":36,"message":null,"name":"TOPIC_ALREADY_EXISTS"},"topic":"payments","topic_id":null}]"#
    );
    let rows = vec![TopicRow {
        name: "orders".to_string(),
        topic_id: None,
        partition_count: 3,
        replication_factor: 1,
        error: None,
    }];
    let listed = topic_metadata_result(false, &rows);
    assert!(listed.human == vec!["orders".to_string()]);
    assert!(!listed.failed);
    assert!(
        listed.data.to_string()
            == r#"[{"error":null,"partitions":3,"replication_factor":1,"topic":"orders","topic_id":null}]"#
    );
    let described = topic_metadata_result(true, &rows);
    assert!(described.human == vec!["Topic: orders\tPartitionCount: 3\tReplicationFactor: 1".to_string()]);
}

#[test]
fn acl_group_and_reassignment_reports() {
    let created = acl_created_result(&vec![None]);
    assert!(created.human == vec!["ACL created".to_string()] && !created.failed);
    assert!(created.data.to_string() == r#"[{"error":null}]"#);
    let refused = KafkaErrorDto { code: 31, name: "CLUSTER_AUTHORIZATION_FAILED".to_string(), message: None };
    let failed = acl_created_result(&vec![Some(refused.clone())]);
    assert!(failed.human == vec!["ACL creation failed".to_string()] && failed.failed);
    let reset = offsets_reset_result("workers", &vec![("orders".to_string(), 0, None), ("orders".to_string(), 1, Some(refused))]);
    assert!(
        reset.human
            == vec![
                "Reset group workers topic orders partition 0.".to_string(),
                "workers\torders\t1\tERROR\tCLUSTER_AUTHORIZATION_FAILED (31)".to_string()
            ]
    );
    assert!(reset.failed);
    assert!(reset.data.to_string().starts_with(r#"[{"error":null,"group":"workers","partition":0,"topic":"orders"},"#));
    let offsets = group_offsets_result("workers", &vec![("orders".to_string(), 2, 42)]);
    assert!(offsets.human == vec!["workers\t\"orders\"\t2\t42".to_string()] && !offsets.failed);
    assert!(offsets.data.to_string() == r#"[{"group":"workers","offset":42,"partition":2,"topic":"orders"}]"#);
    let verified = reassignment_result(true, "orders", "InProgress");
    assert!(verified.human == vec!["orders: InProgress".to_string()] && verified.failed);
    assert!(verified.data.to_string() == r#"{"status":"InProgress","topic":"orders"}"#);
    assert!(!reassignment_result(true, "orders", "InSync").failed);
    assert!(!reassignment_result(false, "orders", "InProgress").failed);
}

#[test]
fn listing_reports_of_acls_configs_and_features() {
    let entry = AclEntryText {
        resource_type: "Topic".to_string(),
        resource_name: "orders".to_string(),
        pattern_type: "Literal".to_string(),
        principal: "User:bob".to_string(),
        host: "*".to_string(),
        operation: "Read".to_string(),
        permission: "Deny".to_string(),
    };
    let acls = acl_entries_result(&vec![entry]);
    assert!(acls.human == vec!["Topic\torders\tUser:bob\tRead\tDeny".to_string()] && !acls.failed);
    assert!(
        acls.data.to_string()
            == r#"[{"host":"*","operation":"Read","pattern_type":"Literal","permission":"Deny","principal":"User:bob","resource_name":"orders","resource_type":"Topic"}]"#
    );
    let items = vec![(
        "orders".to_string(),
        vec![("retention.ms".to_string(), "10".to_string()), ("cleanup.policy".to_string(), "compact".to_string())],
    )];
    let configs = configs_result("topic", &items);
    assert!(
        configs.human
            == vec!["orders\tretention.ms=10".to_string(), "orders\tcleanup.policy=compact".to_string()]
    );
    assert!(
        configs.data.to_string()
            == r#"[{"configs":{"cleanup.policy":"compact","retention.ms":"10"},"entity_name":"orders","entity_type":"topic"}]"#
    );
    assert!(!configs.failed);
    let supported = vec![FeatureRange { name: "metadata.version".to_string(), min_version: 1, max_version: 20 }];
    let finalized = vec![FeatureRange { name: "metadata.version".to_string(), min_version: 1, max_version: 19 }];
    let features = features_result(&supported, &finalized, 7);
    assert!(features.human == vec!["metadata.version\t1-20\t1-19".to_string()] && !features.failed);
    assert!(
        features.data.to_string()
            == r#"{"finalized":[{"feature":"metadata.version","max":19,"min":1}],"finalized_features_epoch":7,"supported":[{"feature":"metadata.version","max":20,"min":1}]}"#
    );
}

#[test]
fn the_json_format_wraps_data_and_errors() {
    let data = krabka_admin::cli::output::success_json(serde_json::Value::Bool(true));
    assert!(data.to_string() == r#"{"data":true}"#);
    let error = krabka_admin::cli::output::error_json(2, "bad \"flag\"");
    assert!(error.to_string() == r#"{"error":{"code":2,"message":"bad \"flag\""}}"#);
}
