use svcspec::bind::ServiceBind;
use svcspec::error::SpecError;
use svcspec::service_group::ServiceGroup;

#[test]
fn service_bind_from_str() {
    let bind_str = "name:app.env#service.group@organization";
    let bind = ServiceBind::from_str(bind_str).unwrap();

    assert_eq!(bind.name, String::from("name"));
    assert_eq!(
        bind.service_group,
        ServiceGroup::parse("app.env#service.group@organization").unwrap()
    );
}

#[test]
fn service_bind_from_str_simple() {
    let bind_str = "name:service.group";
    let bind = ServiceBind::from_str(bind_str).unwrap();

    assert_eq!(bind.name, String::from("name"));
    assert_eq!(
        bind.service_group,
        ServiceGroup::parse("service.group").unwrap()
    );
}

#[test]
fn service_bind_from_str_missing_colon() {
    let bind_str = "uhoh";

    match ServiceBind::from_str(bind_str) {
        Err(e) => match e {
            SpecError::InvalidBinding(val) => assert_eq!("uhoh", val),
            wrong => panic!("Unexpected error returned: {:?}", wrong),
        },
        Ok(_) => panic!("String should fail to parse"),
    }
}

#[test]
fn service_bind_from_str_too_many_colons() {
    let bind_str = "uhoh:this:is:bad";

    match ServiceBind::from_str(bind_str) {
        Err(e) => match e {
            SpecError::InvalidBinding(val) => assert_eq!("uhoh:this:is:bad", val),
            wrong => panic!("Unexpected error returned: {:?}", wrong),
        },
        Ok(_) => panic!("String should fail to parse"),
    }
}

#[test]
fn service_bind_from_str_invalid_service_group() {
    let bind_str = "uhoh:nosuchservicegroup@nope";

    match ServiceBind::from_str(bind_str) {
        Err(e) => match e {
            SpecError::InvalidServiceGroup(val) => assert_eq!("nosuchservicegroup@nope", val),
            wrong => panic!("Unexpected error returned: {:?}", wrong),
        },
        Ok(_) => panic!("String should fail to parse"),
    }
}

#[test]
fn service_bind_to_string() {
    let bind = ServiceBind {
        name: String::from("name"),
        service_group: ServiceGroup::parse("service.group").unwrap(),
        service_name: None,
    };

    assert_eq!("name:service.group", bind.to_string());
}

#[test]
fn service_bind_toml_deserialize() {
    let toml = r#"
            key = "name:app.env#service.group@organization"
            "#;
    let table: toml::Table = toml::from_str(toml).unwrap();
    let bind_str = table.get("key").unwrap().as_str().unwrap();
    let bind = ServiceBind::from_str(bind_str).unwrap();

    assert_eq!(
        bind,
        ServiceBind::from_str("name:app.env#service.group@organization").unwrap()
    );
}

#[test]
fn service_bind_toml_serialize() {
    let bind = ServiceBind {
        name: String::from("name"),
        service_group: ServiceGroup::parse("service.group").unwrap(),
        service_name: None,
    };
    let mut table = toml::Table::new();
    table.insert(String::from("key"), toml::Value::String(bind.to_string()));
    let toml = toml::to_string(&table).unwrap();

    assert!(toml.starts_with(r#"key = "name:service.group""#));
}

#[test]
fn binding_grammar_two_segments() {
    let bind = ServiceBind::from_str("cache:redis.cache@acmecorp").unwrap();
    assert_eq!(bind.name, String::from("cache"));
    assert_eq!(
        bind.service_group,
        ServiceGroup::parse("redis.cache@acmecorp").unwrap()
    );
    assert_eq!(bind.service_name, None);
    assert!(!bind.is_composite());
}

#[test]
fn binding_grammar_three_segments() {
    let bind = ServiceBind::from_str("web:cache:redis.cache@acmecorp").unwrap();
    assert_eq!(bind.name, String::from("cache"));
    assert_eq!(bind.service_name, Some(String::from("web")));
    assert_eq!(
        bind.service_group,
        ServiceGroup::parse("redis.cache@acmecorp").unwrap()
    );
    assert!(bind.is_composite());
}

#[test]
fn binding_grammar_rejects_wrong_segment_counts() {
    match ServiceBind::from_str("nocolon") {
        Err(SpecError::InvalidBinding(v)) => assert_eq!(v, String::from("nocolon")),
        wrong => panic!("Unexpected result: {:?}", wrong),
    }
    match ServiceBind::from_str("a:b:c:d") {
        Err(SpecError::InvalidBinding(v)) => assert_eq!(v, String::from("a:b:c:d")),
        wrong => panic!("Unexpected result: {:?}", wrong),
    }
}

#[test]
fn binding_format_is_exact_inverse_of_parse() {
    for s in [
        "name:service.group",
        "name:app.env#service.group",
        "name:service.group@organization",
        "web:cache:app.env#redis.cache@acme@corp",
    ] {
        let bind = ServiceBind::from_str(s).unwrap();
        assert_eq!(bind.to_string(), String::from(s));
    }
}

#[test]
fn service_group_parse_parts() {
    let sg = ServiceGroup::parse("app.env#service.group@organization").unwrap();
    let ae = sg.application_environment.unwrap();
    assert_eq!(ae.application, String::from("app"));
    assert_eq!(ae.environment, String::from("env"));
    assert_eq!(sg.service, String::from("service"));
    assert_eq!(sg.group, String::from("group"));
    assert_eq!(sg.organization, Some(String::from("organization")));

    match ServiceGroup::parse("a.b.c") {
        Err(SpecError::InvalidServiceGroup(v)) => assert_eq!(v, String::from("a.b.c")),
        wrong => panic!("Unexpected result: {:?}", wrong),
    }
    match ServiceGroup::parse("service.group@") {
        Err(SpecError::InvalidServiceGroup(v)) => assert_eq!(v, String::from("service.group@")),
        wrong => panic!("Unexpected result: {:?}", wrong),
    }
}
