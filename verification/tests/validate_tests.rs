use svcspec::bind::ServiceBind;
use svcspec::composite::{CompositeSpec, Spec};
use svcspec::error::SpecError;
use svcspec::ident::PackageIdent;
use svcspec::spec::ServiceSpec;

fn spec_with_binds(binds: &[&str]) -> ServiceSpec {
    let mut spec = ServiceSpec::default_for(PackageIdent::parse("core/web/1.0.0").unwrap());
    spec.binds = binds
        .iter()
        .map(|s| ServiceBind::from_str(s).unwrap())
        .collect();
    spec
}

#[test]
fn validator_accepts_exact_required() {
    let spec = spec_with_binds(&["db:postgres.default"]);
    let required = vec![String::from("db")];
    let optional = vec![String::from("cache")];
    assert!(spec.validate(&required, &optional).is_ok());
}

#[test]
fn validator_reports_every_missing_required() {
    let spec = spec_with_binds(&[]);
    let required = vec![String::from("db")];
    let optional = vec![String::from("cache")];
    match spec.validate(&required, &optional) {
        Err(SpecError::MissingRequiredBind(missing)) => {
            assert_eq!(missing, vec![String::from("db")]);
        }
        wrong => panic!("Unexpected result: {:?}", wrong),
    }
}

#[test]
fn validator_reports_every_leftover() {
    let spec = spec_with_binds(&["db:postgres.default", "extra:things.default"]);
    let required = vec![String::from("db")];
    let optional = vec![String::from("cache")];
    match spec.validate(&required, &optional) {
        Err(SpecError::InvalidBinds(leftover)) => {
            assert_eq!(leftover, vec![String::from("extra")]);
        }
        wrong => panic!("Unexpected result: {:?}", wrong),
    }
}

#[test]
fn validator_collects_all_missing_names() {
    let spec = spec_with_binds(&["cache:redis.cache"]);
    let required = vec![String::from("db"), String::from("queue")];
    let optional = vec![String::from("cache")];
    match spec.validate(&required, &optional) {
        Err(SpecError::MissingRequiredBind(missing)) => {
            assert_eq!(missing, vec![String::from("db"), String::from("queue")]);
        }
        wrong => panic!("Unexpected result: {:?}", wrong),
    }
}

#[test]
fn validator_collects_all_leftover_names() {
    let spec = spec_with_binds(&["a:one.default", "b:two.default"]);
    let required: Vec<String> = Vec::new();
    let optional: Vec<String> = Vec::new();
    match spec.validate(&required, &optional) {
        Err(SpecError::InvalidBinds(leftover)) => {
            assert_eq!(leftover, vec![String::from("a"), String::from("b")]);
        }
        wrong => panic!("Unexpected result: {:?}", wrong),
    }
}

#[test]
fn validator_compares_names_only() {
    // the group a bind points at plays no part in the contract check, and a
    // second bind under the same name is the same slot
    let spec = spec_with_binds(&["db:anything.odd@org", "db:other.group"]);
    let required = vec![String::from("db")];
    let optional: Vec<String> = Vec::new();
    assert!(spec.validate(&required, &optional).is_ok());
}

#[test]
fn validator_optional_binds_may_be_absent() {
    let spec = spec_with_binds(&["db:postgres.default"]);
    let required = vec![String::from("db")];
    let optional = vec![String::from("cache"), String::from("sessions")];
    assert!(spec.validate(&required, &optional).is_ok());
}

#[test]
fn spec_ident_comes_from_the_right_arm() {
    let svc = ServiceSpec::default_for(PackageIdent::parse("core/web/1.0.0").unwrap());
    let single = Spec::Service(svc.clone());
    assert_eq!(single.ident(), &PackageIdent::parse("core/web/1.0.0").unwrap());

    let composite = Spec::Composite(
        CompositeSpec {
            name: String::from("webapp"),
            ident: PackageIdent::parse("core/webapp/1.0.0").unwrap(),
        },
        vec![svc],
    );
    assert_eq!(
        composite.ident(),
        &PackageIdent::parse("core/webapp/1.0.0").unwrap()
    );
}
