use svcspec::choices::{BindingMode, ProcessState, Topology, UpdateStrategy};
use svcspec::error::SpecError;
use svcspec::bind::ServiceBind;
use svcspec::ident::PackageIdent;
use svcspec::service_group::ApplicationEnvironment;
use svcspec::spec::ServiceSpec;
use svcspec::toml_codec::RawVal;

#[test]
fn service_spec_from_str() {
    let toml = r#"
            ident = "origin/name/1.2.3/20170223130020"
            group = "jobs"
            application_environment = "theinternet.preprod"
            bldr_url = "http://example.com/depot"
            topology = "leader"
            update_strategy = "rolling"
            binds = ["cache:redis.cache@acmecorp", "db:postgres.app@acmecorp"]
            config_from = "/only/for/development"

            extra_stuff = "should be ignored"
            "#;
    let spec = ServiceSpec::from_str(toml).unwrap();

    assert_eq!(
        spec.ident,
        PackageIdent::parse("origin/name/1.2.3/20170223130020").unwrap()
    );
    assert_eq!(spec.group, String::from("jobs"));
    assert_eq!(
        spec.application_environment,
        Some(ApplicationEnvironment::parse("theinternet.preprod").unwrap())
    );
    assert_eq!(spec.bldr_url, String::from("http://example.com/depot"));
    assert_eq!(spec.topology, Topology::Leader);
    assert_eq!(spec.update_strategy, UpdateStrategy::Rolling);
    assert_eq!(
        spec.binds,
        vec![
            ServiceBind::from_str("cache:redis.cache@acmecorp").unwrap(),
            ServiceBind::from_str("db:postgres.app@acmecorp").unwrap(),
        ]
    );
    assert_eq!(
        spec.config_from,
        Some(String::from("/only/for/development"))
    );
}

#[test]
fn service_spec_from_str_missing_ident() {
    let toml = r#""#;

    match ServiceSpec::from_str(toml) {
        Err(e) => match e {
            SpecError::MissingRequiredIdent => assert!(true),
            e => panic!("Unexpected error returned: {:?}", e),
        },
        Ok(_) => panic!("Spec TOML should fail to parse"),
    }
}

#[test]
fn service_spec_from_str_invalid_topology() {
    let toml = r#"
            ident = "origin/name/1.2.3/20170223130020"
            topology = "smartest-possible"
            "#;

    match ServiceSpec::from_str(toml) {
        Err(e) => match e {
            SpecError::ServiceSpecParse(_) => assert!(true),
            e => panic!("Unexpected error returned: {:?}", e),
        },
        Ok(_) => panic!("Spec TOML should fail to parse"),
    }
}

#[test]
fn service_spec_from_str_invalid_binds() {
    let toml = r#"
            ident = "origin/name/1.2.3/20170223130020"
            topology = "leader"
            binds = ["magic:magicness.default", "winning"]
            "#;

    match ServiceSpec::from_str(toml) {
        Err(e) => match e {
            SpecError::ServiceSpecParse(_) => assert!(true),
            e => panic!("Unexpected error returned: {:?}", e),
        },
        Ok(_) => panic!("Spec TOML should fail to parse"),
    }
}

fn example_spec() -> ServiceSpec {
    ServiceSpec {
        ident: PackageIdent::parse("origin/name/1.2.3/20170223130020").unwrap(),
        group: String::from("jobs"),
        application_environment: Some(
            ApplicationEnvironment::parse("theinternet.preprod").unwrap(),
        ),
        bldr_url: String::from("http://example.com/depot"),
        channel: String::from("unstable"),
        topology: Topology::Leader,
        update_strategy: UpdateStrategy::AtOnce,
        binds: vec![
            ServiceBind::from_str("cache:redis.cache@acmecorp").unwrap(),
            ServiceBind::from_str("db:postgres.app@acmecorp").unwrap(),
        ],
        binding_mode: BindingMode::Relaxed,
        config_from: Some(String::from("/only/for/development")),
        desired_state: ProcessState::Down,
        svc_encrypted_password: None,
        composite: None,
    }
}

#[test]
fn service_spec_to_toml_string() {
    let spec = example_spec();
    let toml = spec.to_toml_string().unwrap();

    assert!(toml.contains(r#"ident = "origin/name/1.2.3/20170223130020""#));
    assert!(toml.contains(r#"group = "jobs""#));
    assert!(toml.contains(r#"application_environment = "theinternet.preprod""#));
    assert!(toml.contains(r#"bldr_url = "http://example.com/depot""#));
    assert!(toml.contains(r#"channel = "unstable""#));
    assert!(toml.contains(r#"topology = "leader""#));
    assert!(toml.contains(r#"update_strategy = "at-once""#));
    assert!(toml.contains(r#""cache:redis.cache@acmecorp""#));
    assert!(toml.contains(r#""db:postgres.app@acmecorp""#));
    assert!(toml.contains(r#"desired_state = "down""#));
    assert!(toml.contains(r#"config_from = "/only/for/development""#));
    assert!(toml.contains(r#"binding_mode = "relaxed""#));
}

#[test]
fn service_spec_to_toml_string_invalid_ident() {
    // the default identity is invalid: it is missing origin and name
    let spec = ServiceSpec::default();

    match spec.to_toml_string() {
        Err(e) => match e {
            SpecError::MissingRequiredIdent => assert!(true),
            wrong => panic!("Unexpected error returned: {:?}", wrong),
        },
        Ok(_) => panic!("Spec TOML should fail to render"),
    }
}

#[test]
fn service_spec_file_name() {
    let spec = ServiceSpec::default_for(PackageIdent::parse("origin/hoopa/1.2.3").unwrap());

    assert_eq!(String::from("hoopa.spec"), spec.file_name());
}

#[test]
fn service_spec_round_trip() {
    // a parse, a serialization, and a second parse give the first value back
    let toml = r#"
            ident = "origin/name/1.2.3/20170223130020"
            group = "jobs"
            application_environment = "theinternet.preprod"
            bldr_url = "http://example.com/depot"
            channel = "unstable"
            topology = "leader"
            update_strategy = "rolling"
            binds = ["cache:redis.cache@acmecorp", "db:postgres.app@acmecorp"]
            binding_mode = "relaxed"
            config_from = "/only/for/development"
            desired_state = "down"
            composite = "webapp"
            "#;
    let first = ServiceSpec::from_str(toml).unwrap();
    let rendered = first.to_toml_string().unwrap();
    let second = ServiceSpec::from_str(rendered.as_str()).unwrap();
    assert_eq!(first, second);
}

#[test]
fn service_spec_round_trip_minimal() {
    let toml = r#"ident = "origin/name""#;
    let first = ServiceSpec::from_str(toml).unwrap();
    let rendered = first.to_toml_string().unwrap();
    let second = ServiceSpec::from_str(rendered.as_str()).unwrap();
    assert_eq!(first, second);
}

#[test]
fn service_spec_from_str_defaults() {
    let spec = ServiceSpec::from_str(r#"ident = "origin/name""#).unwrap();
    assert_eq!(spec.group, String::from("default"));
    assert_eq!(spec.channel, String::from("stable"));
    assert_eq!(spec.bldr_url, String::from("https://bldr.habitat.sh"));
    assert_eq!(spec.topology, Topology::Standalone);
    assert_eq!(spec.update_strategy, UpdateStrategy::Disabled);
    assert!(spec.binds.is_empty());
    assert_eq!(spec.binding_mode, BindingMode::Strict);
    assert_eq!(spec.config_from, None);
    assert_eq!(spec.desired_state, ProcessState::Up);
    assert_eq!(spec.svc_encrypted_password, None);
    assert_eq!(spec.composite, None);
}

#[test]
fn service_spec_from_str_not_toml_at_all() {
    match ServiceSpec::from_str("You're gonna have a bad time") {
        Err(SpecError::ServiceSpecParse(_)) => {}
        wrong => panic!("Unexpected result: {:?}", wrong),
    }
}

#[test]
fn service_spec_from_str_wrong_field_shape() {
    // a known key of the wrong shape is a parse error, not ignored
    match ServiceSpec::from_str("ident = \"origin/name\"\ngroup = [\"jobs\"]") {
        Err(SpecError::ServiceSpecParse(_)) => {}
        wrong => panic!("Unexpected result: {:?}", wrong),
    }
}

#[test]
fn package_ident_parse_and_render() {
    let id = PackageIdent::parse("core/redis/3.2.4/20170514150022").unwrap();
    assert_eq!(id.origin, String::from("core"));
    assert_eq!(id.name, String::from("redis"));
    assert_eq!(id.version, Some(String::from("3.2.4")));
    assert_eq!(id.release, Some(String::from("20170514150022")));
    assert_eq!(id.to_text(), String::from("core/redis/3.2.4/20170514150022"));

    let short = PackageIdent::parse("core/redis").unwrap();
    assert_eq!(short.version, None);
    assert_eq!(short.to_text(), String::from("core/redis"));

    match PackageIdent::parse("just-a-name") {
        Err(SpecError::InvalidPackageIdent(v)) => assert_eq!(v, String::from("just-a-name")),
        wrong => panic!("Unexpected result: {:?}", wrong),
    }
}

#[test]
fn service_spec_from_table_reads_plain_entries() {
    let entries = vec![
        (String::from("ident"), RawVal::Str(String::from("origin/name"))),
        (String::from("topology"), RawVal::Str(String::from("leader"))),
        (String::from("mystery"), RawVal::Other),
    ];
    let spec = ServiceSpec::from_table(&entries).unwrap();
    assert_eq!(spec.ident, PackageIdent::parse("origin/name").unwrap());
    assert_eq!(spec.topology, Topology::Leader);

    let bad = vec![
        (String::from("ident"), RawVal::Str(String::from("origin/name"))),
        (String::from("group"), RawVal::Other),
    ];
    match ServiceSpec::from_table(&bad) {
        Err(SpecError::ServiceSpecParse(key)) => assert_eq!(key, String::from("group")),
        wrong => panic!("Unexpected result: {:?}", wrong),
    }
}

#[test]
fn service_spec_from_table_later_entry_wins() {
    let entries = vec![
        (String::from("ident"), RawVal::Str(String::from("origin/name"))),
        (String::from("channel"), RawVal::Str(String::from("first"))),
        (String::from("channel"), RawVal::Str(String::from("second"))),
    ];
    let spec = ServiceSpec::from_table(&entries).unwrap();
    assert_eq!(spec.channel, String::from("second"));
}
