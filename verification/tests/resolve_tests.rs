use svcspec::bind::ServiceBind;
use svcspec::error::SpecError;
use svcspec::ident::PackageIdent;
use svcspec::legacy::ServiceSpecLegacy;
use svcspec::load::{set_composite_binds, BindMap, BindMapping, SvcLoad};
use svcspec::spec::ServiceSpec;

fn member_ident() -> PackageIdent {
    PackageIdent::parse("core/web/1.0.0").unwrap()
}

fn db_mapping() -> BindMapping {
    BindMapping {
        bind_name: String::from("db"),
        satisfying_service: PackageIdent::parse("core/postgres/9.6.2").unwrap(),
    }
}

#[test]
fn resolver_uses_declared_mappings() {
    let mut spec = ServiceSpec::default_for(member_ident());
    let mut bind_map = BindMap::new();
    bind_map.insert(member_ident(), vec![db_mapping()]);
    let overrides: Vec<ServiceBind> = Vec::new();

    set_composite_binds(&mut spec, &mut bind_map, &overrides);

    assert_eq!(spec.binds.len(), 1);
    let bind = &spec.binds[0];
    assert_eq!(bind.name, String::from("db"));
    assert_eq!(bind.service_name, Some(String::from("db")));
    // the group is built from the satisfying service's name and the
    // member's own group
    assert_eq!(bind.service_group.service, String::from("postgres"));
    assert_eq!(bind.service_group.group, String::from("default"));
    assert_eq!(bind.service_group.organization, None);
    // the member's entry was consumed
    assert_eq!(bind_map.len(), 0);
}

#[test]
fn resolver_override_wins_over_mapping() {
    let mut spec = ServiceSpec::default_for(member_ident());
    let mut bind_map = BindMap::new();
    bind_map.insert(member_ident(), vec![db_mapping()]);
    // the member's package name is "web", so this override targets it
    let overrides = vec![ServiceBind::from_str("web:db:custom.group").unwrap()];

    set_composite_binds(&mut spec, &mut bind_map, &overrides);

    assert_eq!(spec.binds.len(), 1);
    let bind = &spec.binds[0];
    assert_eq!(bind.name, String::from("db"));
    assert_eq!(bind.service_group.service, String::from("custom"));
    assert_eq!(bind.service_group.group, String::from("group"));
    assert_eq!(bind.service_name, Some(String::from("web")));
}

#[test]
fn resolver_skips_overrides_for_other_members() {
    let mut spec = ServiceSpec::default_for(member_ident());
    let mut bind_map = BindMap::new();
    bind_map.insert(member_ident(), vec![db_mapping()]);
    // "api" is not this member's package name
    let overrides = vec![ServiceBind::from_str("api:db:custom.group").unwrap()];

    set_composite_binds(&mut spec, &mut bind_map, &overrides);

    assert_eq!(spec.binds.len(), 1);
    assert_eq!(spec.binds[0].service_group.service, String::from("postgres"));
}

#[test]
fn resolver_adds_overrides_beyond_the_mappings() {
    let mut spec = ServiceSpec::default_for(member_ident());
    let mut bind_map = BindMap::new();
    let overrides = vec![ServiceBind::from_str("web:cache:redis.cache").unwrap()];

    set_composite_binds(&mut spec, &mut bind_map, &overrides);

    assert_eq!(spec.binds.len(), 1);
    assert_eq!(spec.binds[0].name, String::from("cache"));
    assert_eq!(spec.binds[0].service_group.service, String::from("redis"));
}

#[test]
fn load_request_applies_present_fields_only() {
    let mut spec = ServiceSpec::default_for(PackageIdent::parse("core/old/0.9.0").unwrap());
    spec.group = String::from("kept-unless-set");
    let load = SvcLoad {
        ident: PackageIdent::parse("core/new/1.0.0").unwrap(),
        group: None,
        application_environment: None,
        bldr_url: Some(String::from("http://example.com/depot")),
        bldr_channel: None,
        topology: None,
        update_strategy: None,
        binds: None,
        binding_mode: None,
        config_from: None,
        svc_encrypted_password: None,
    };
    load.into_spec(&mut spec);
    assert_eq!(spec.ident, PackageIdent::parse("core/new/1.0.0").unwrap());
    assert_eq!(spec.group, String::from("kept-unless-set"));
    assert_eq!(spec.bldr_url, String::from("http://example.com/depot"));
    assert_eq!(spec.channel, String::from("stable"));
    assert_eq!(spec.composite, None);
}

#[test]
fn load_request_keeps_only_standalone_binds() {
    let mut spec = ServiceSpec::default_for(PackageIdent::parse("core/web/1.0.0").unwrap());
    let load = SvcLoad {
        ident: PackageIdent::parse("core/web/1.0.0").unwrap(),
        group: None,
        application_environment: None,
        bldr_url: None,
        bldr_channel: None,
        topology: None,
        update_strategy: None,
        binds: Some(vec![
            ServiceBind::from_str("web:db:postgres.default").unwrap(),
            ServiceBind::from_str("cache:redis.cache").unwrap(),
        ]),
        binding_mode: None,
        config_from: None,
        svc_encrypted_password: None,
    };
    load.into_spec(&mut spec);
    assert_eq!(spec.binds.len(), 1);
    assert_eq!(spec.binds[0].name, String::from("cache"));
}

#[test]
fn composite_expansion_customizes_each_member() {
    let web = PackageIdent::parse("core/web/1.0.0").unwrap();
    let api = PackageIdent::parse("core/api/1.0.0").unwrap();
    let mut bind_map = BindMap::new();
    bind_map.insert(web.clone(), vec![db_mapping()]);
    let load = SvcLoad {
        ident: PackageIdent::parse("core/webapp/1.0.0").unwrap(),
        group: None,
        application_environment: None,
        bldr_url: None,
        bldr_channel: None,
        topology: None,
        update_strategy: None,
        binds: Some(vec![ServiceBind::from_str("api:db:ext.default").unwrap()]),
        binding_mode: None,
        config_from: Some(String::from("/dev/only")),
        svc_encrypted_password: Some(String::from("not-per-member")),
    };
    let specs = load.into_composite_spec(
        String::from("webapp"),
        vec![web.clone(), api.clone()],
        bind_map,
    );
    assert_eq!(specs.len(), 2);
    // every member carries the composite name, and neither the password nor
    // the development override directory survives expansion
    for spec in &specs {
        assert_eq!(spec.composite, Some(String::from("webapp")));
        assert_eq!(spec.svc_encrypted_password, None);
        assert_eq!(spec.config_from, None);
    }
    assert_eq!(specs[0].ident, web);
    assert_eq!(specs[1].ident, api);
    // web's binds come from the declared mapping; api's from the override
    assert_eq!(specs[0].binds.len(), 1);
    assert_eq!(specs[0].binds[0].service_group.service, String::from("postgres"));
    assert_eq!(specs[1].binds.len(), 1);
    assert_eq!(specs[1].binds[0].service_group.service, String::from("ext"));
}

#[test]
fn update_composite_resolves_binds_again() {
    let web = PackageIdent::parse("core/web/1.0.0").unwrap();
    let mut spec = ServiceSpec::default_for(web.clone());
    let mut bind_map = BindMap::new();
    bind_map.insert(web.clone(), vec![db_mapping()]);
    let load = SvcLoad {
        ident: web.clone(),
        group: None,
        application_environment: None,
        bldr_url: None,
        bldr_channel: Some(String::from("unstable")),
        topology: None,
        update_strategy: None,
        binds: Some(vec![ServiceBind::from_str("web:db:custom.group").unwrap()]),
        binding_mode: None,
        config_from: None,
        svc_encrypted_password: None,
    };
    load.update_composite(&mut bind_map, &mut spec);
    assert_eq!(spec.channel, String::from("unstable"));
    assert_eq!(spec.binds.len(), 1);
    assert_eq!(spec.binds[0].service_group.service, String::from("custom"));
    assert_eq!(bind_map.len(), 0);
}

#[test]
fn legacy_upgrade_fills_defaults() {
    // a legacy document without a channel upgrades to the current default,
    // not to an empty string
    let legacy = ServiceSpecLegacy::from_str(r#"ident = "origin/name/1.2.3""#).unwrap();
    assert_eq!(legacy.channel, None);
    let current = legacy.to_latest();
    assert_eq!(current.channel, String::from("stable"));
    assert_eq!(current.group, String::from("default"));
    assert_eq!(
        current.ident,
        PackageIdent::parse("origin/name/1.2.3").unwrap()
    );
}

#[test]
fn legacy_upgrade_keeps_present_fields() {
    let toml = r#"
            ident = "origin/name/1.2.3"
            group = "jobs"
            channel = "unstable"
            topology = "leader"
            binds = ["cache:redis.cache"]
            "#;
    let legacy = ServiceSpecLegacy::from_str(toml).unwrap();
    let current = legacy.to_latest();
    assert_eq!(current.group, String::from("jobs"));
    assert_eq!(current.channel, String::from("unstable"));
    assert_eq!(current.topology, svcspec::choices::Topology::Leader);
    assert_eq!(current.binds.len(), 1);
    assert_eq!(current.update_strategy, svcspec::choices::UpdateStrategy::Disabled);
}

#[test]
fn legacy_missing_ident_is_rejected() {
    match ServiceSpecLegacy::from_str("") {
        Err(SpecError::MissingRequiredIdent) => {}
        wrong => panic!("Unexpected result: {:?}", wrong),
    }
}

#[test]
fn legacy_file_name_uses_package_name() {
    let legacy = ServiceSpecLegacy::from_str(r#"ident = "origin/hoopa/1.2.3""#).unwrap();
    assert_eq!(legacy.file_name(), String::from("hoopa.spec"));
}
