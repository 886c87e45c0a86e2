use vstd::prelude::*;

use crate::bind::{format_bind, parse_bind, ServiceBind, ServiceBindV};
use crate::choices::{
    binding_mode_text, parse_binding_mode, parse_process_state, parse_topology,
    parse_update_strategy, process_state_text, topology_text, update_strategy_text, BindingMode,
    ProcessState, Topology, UpdateStrategy,
};
use crate::error::{SpecErrV, SpecError};
use crate::ident::{default_ident, format_ident, parse_ident, PackageIdent, PackageIdentV};
use crate::service_group::{format_app_env, parse_app_env, ApplicationEnvironment, AppEnvV};
use crate::toml_codec::{
    emit_map, read_toml_table, table_get, table_map, toml_table_of, write_toml_table, EmitVal,
    RawVal, RawValV,
};

verus! {

/// The package source all specs point at unless the document says
/// otherwise.
pub const DEFAULT_BLDR_URL: &'static str = "https://bldr.habitat.sh";

/// One desired-state record for exactly one service instance.
#[derive(Debug, Clone, PartialEq, Eq)]
pub struct ServiceSpec {
    pub ident: PackageIdent,
    pub group: String,
    pub application_environment: Option<ApplicationEnvironment>,
    pub bldr_url: String,
    pub channel: String,
    pub topology: Topology,
    pub update_strategy: UpdateStrategy,
    pub binds: Vec<ServiceBind>,
    pub binding_mode: BindingMode,
    pub config_from: Option<String>,
    pub desired_state: ProcessState,
    pub svc_encrypted_password: Option<String>,
    pub composite: Option<String>,
}

/// The mathematical image of a `ServiceSpec`.
pub struct ServiceSpecV {
    pub ident: PackageIdentV,
    pub group: Seq<char>,
    pub application_environment: Option<AppEnvV>,
    pub bldr_url: Seq<char>,
    pub channel: Seq<char>,
    pub topology: Topology,
    pub update_strategy: UpdateStrategy,
    pub binds: Seq<ServiceBindV>,
    pub binding_mode: BindingMode,
    pub config_from: Option<Seq<char>>,
    pub desired_state: ProcessState,
    pub svc_encrypted_password: Option<Seq<char>>,
    pub composite: Option<Seq<char>>,
}

impl View for ServiceSpec {
    type V = ServiceSpecV;

    open spec fn view(&self) -> ServiceSpecV {
        ServiceSpecV {
            ident: self.ident@,
            group: self.group@,
            application_environment: match self.application_environment {
                Some(ref ae) => Some(ae@),
                None => None,
            },
            bldr_url: self.bldr_url@,
            channel: self.channel@,
            topology: self.topology,
            update_strategy: self.update_strategy,
            binds: self.binds@.map_values(|b: ServiceBind| b@),
            binding_mode: self.binding_mode,
            config_from: match self.config_from {
                Some(ref p) => Some(p@),
                None => None,
            },
            desired_state: self.desired_state,
            svc_encrypted_password: match self.svc_encrypted_password {
                Some(ref p) => Some(p@),
                None => None,
            },
            composite: match self.composite {
                Some(ref c) => Some(c@),
                None => None,
            },
        }
    }
}

/// The spec every document starts from: each field at its default.
pub open spec fn default_spec() -> ServiceSpecV {
    ServiceSpecV {
        ident: default_ident(),
        group: "default"@,
        application_environment: None,
        bldr_url: "https://bldr.habitat.sh"@,
        channel: "stable"@,
        topology: Topology::Standalone,
        update_strategy: UpdateStrategy::Disabled,
        binds: Seq::<ServiceBindV>::empty(),
        binding_mode: BindingMode::Strict,
        config_from: None,
        desired_state: ProcessState::Up,
        svc_encrypted_password: None,
        composite: None,
    }
}

// ---------------------------------------------------------------------------
// Reading a spec out of a document table, field by field. A field of the
// wrong shape is a parse error carrying the field name; a field whose text
// violates its grammar is a parse error carrying that text. The first
// offending field, in the order of the declarations below, decides.
// ---------------------------------------------------------------------------

/// A field that must be a string when present.
pub open spec fn str_field(m: Map<Seq<char>, RawValV>, key: Seq<char>) -> Result<
    Option<Seq<char>>,
    SpecErrV,
> {
    if !m.contains_key(key) {
        Ok(None)
    } else {
        match m[key] {
            RawValV::Str(s) => Ok(Some(s)),
            _ => Err(SpecErrV::ServiceSpecParse(key)),
        }
    }
}

pub open spec fn field_ident(m: Map<Seq<char>, RawValV>) -> Result<PackageIdentV, SpecErrV> {
    match str_field(m, "ident"@) {
        Err(e) => Err(e),
        Ok(None) => Ok(default_ident()),
        Ok(Some(s)) => match parse_ident(s) {
            None => Err(SpecErrV::ServiceSpecParse(s)),
            Some(id) => Ok(id),
        },
    }
}

pub open spec fn field_group(m: Map<Seq<char>, RawValV>) -> Result<Seq<char>, SpecErrV> {
    match str_field(m, "group"@) {
        Err(e) => Err(e),
        Ok(None) => Ok("default"@),
        Ok(Some(s)) => Ok(s),
    }
}

pub open spec fn field_app_env(m: Map<Seq<char>, RawValV>) -> Result<Option<AppEnvV>, SpecErrV> {
    match str_field(m, "application_environment"@) {
        Err(e) => Err(e),
        Ok(None) => Ok(None),
        Ok(Some(s)) => match parse_app_env(s) {
            None => Err(SpecErrV::ServiceSpecParse(s)),
            Some(ae) => Ok(Some(ae)),
        },
    }
}

pub open spec fn field_bldr_url(m: Map<Seq<char>, RawValV>) -> Result<Seq<char>, SpecErrV> {
    match str_field(m, "bldr_url"@) {
        Err(e) => Err(e),
        Ok(None) => Ok("https://bldr.habitat.sh"@),
        Ok(Some(s)) => Ok(s),
    }
}

pub open spec fn field_channel(m: Map<Seq<char>, RawValV>) -> Result<Seq<char>, SpecErrV> {
    match str_field(m, "channel"@) {
        Err(e) => Err(e),
        Ok(None) => Ok("stable"@),
        Ok(Some(s)) => Ok(s),
    }
}

pub open spec fn field_topology(m: Map<Seq<char>, RawValV>) -> Result<Topology, SpecErrV> {
    match str_field(m, "topology"@) {
        Err(e) => Err(e),
        Ok(None) => Ok(Topology::Standalone),
        Ok(Some(s)) => match parse_topology(s) {
            None => Err(SpecErrV::ServiceSpecParse(s)),
            Some(t) => Ok(t),
        },
    }
}

pub open spec fn field_update_strategy(m: Map<Seq<char>, RawValV>) -> Result<
    UpdateStrategy,
    SpecErrV,
> {
    match str_field(m, "update_strategy"@) {
        Err(e) => Err(e),
        Ok(None) => Ok(UpdateStrategy::Disabled),
        Ok(Some(s)) => match parse_update_strategy(s) {
            None => Err(SpecErrV::ServiceSpecParse(s)),
            Some(u) => Ok(u),
        },
    }
}

/// Reads a list of binding strings front to back; the first string that
/// violates the binding grammar decides the error.
pub open spec fn parse_binds_list(items: Seq<Seq<char>>) -> Result<Seq<ServiceBindV>, SpecErrV>
    decreases items.len(),
{
    if items.len() == 0 {
        Ok(Seq::<ServiceBindV>::empty())
    } else {
        match parse_bind(items.first()) {
            Err(_) => Err(SpecErrV::ServiceSpecParse(items.first())),
            Ok(b) => match parse_binds_list(items.drop_first()) {
                Err(e) => Err(e),
                Ok(rest) => Ok(seq![b] + rest),
            },
        }
    }
}

pub open spec fn field_binds(m: Map<Seq<char>, RawValV>) -> Result<Seq<ServiceBindV>, SpecErrV> {
    if !m.contains_key("binds"@) {
        Ok(Seq::<ServiceBindV>::empty())
    } else {
        match m["binds"@] {
            RawValV::List(items) => parse_binds_list(items),
            _ => Err(SpecErrV::ServiceSpecParse("binds"@)),
        }
    }
}

pub open spec fn field_binding_mode(m: Map<Seq<char>, RawValV>) -> Result<BindingMode, SpecErrV> {
    match str_field(m, "binding_mode"@) {
        Err(e) => Err(e),
        Ok(None) => Ok(BindingMode::Strict),
        Ok(Some(s)) => match parse_binding_mode(s) {
            None => Err(SpecErrV::ServiceSpecParse(s)),
            Some(b) => Ok(b),
        },
    }
}

pub open spec fn field_config_from(m: Map<Seq<char>, RawValV>) -> Result<
    Option<Seq<char>>,
    SpecErrV,
> {
    str_field(m, "config_from"@)
}

pub open spec fn field_desired_state(m: Map<Seq<char>, RawValV>) -> Result<
    ProcessState,
    SpecErrV,
> {
    match str_field(m, "desired_state"@) {
        Err(e) => Err(e),
        Ok(None) => Ok(ProcessState::Up),
        Ok(Some(s)) => match parse_process_state(s) {
            None => Err(SpecErrV::ServiceSpecParse(s)),
            Some(p) => Ok(p),
        },
    }
}

pub open spec fn field_password(m: Map<Seq<char>, RawValV>) -> Result<
    Option<Seq<char>>,
    SpecErrV,
> {
    str_field(m, "svc_encrypted_password"@)
}

pub open spec fn field_composite(m: Map<Seq<char>, RawValV>) -> Result<
    Option<Seq<char>>,
    SpecErrV,
> {
    str_field(m, "composite"@)
}

/// What a well-formed document table denotes: a spec, or the error that a
/// reader reports on it. Unknown keys are ignored; a missing or zero-value
/// identity fails the whole read.
pub open spec fn spec_from_table(m: Map<Seq<char>, RawValV>) -> Result<ServiceSpecV, SpecErrV> {
    if field_ident(m) is Err {
        Err(field_ident(m)->Err_0)
    } else if field_group(m) is Err {
        Err(field_group(m)->Err_0)
    } else if field_app_env(m) is Err {
        Err(field_app_env(m)->Err_0)
    } else if field_bldr_url(m) is Err {
        Err(field_bldr_url(m)->Err_0)
    } else if field_channel(m) is Err {
        Err(field_channel(m)->Err_0)
    } else if field_topology(m) is Err {
        Err(field_topology(m)->Err_0)
    } else if field_update_strategy(m) is Err {
        Err(field_update_strategy(m)->Err_0)
    } else if field_binds(m) is Err {
        Err(field_binds(m)->Err_0)
    } else if field_binding_mode(m) is Err {
        Err(field_binding_mode(m)->Err_0)
    } else if field_config_from(m) is Err {
        Err(field_config_from(m)->Err_0)
    } else if field_desired_state(m) is Err {
        Err(field_desired_state(m)->Err_0)
    } else if field_password(m) is Err {
        Err(field_password(m)->Err_0)
    } else if field_composite(m) is Err {
        Err(field_composite(m)->Err_0)
    } else if field_ident(m)->Ok_0 == default_ident() {
        Err(SpecErrV::MissingRequiredIdent)
    } else {
        Ok(
            ServiceSpecV {
                ident: field_ident(m)->Ok_0,
                group: field_group(m)->Ok_0,
                application_environment: field_app_env(m)->Ok_0,
                bldr_url: field_bldr_url(m)->Ok_0,
                channel: field_channel(m)->Ok_0,
                topology: field_topology(m)->Ok_0,
                update_strategy: field_update_strategy(m)->Ok_0,
                binds: field_binds(m)->Ok_0,
                binding_mode: field_binding_mode(m)->Ok_0,
                config_from: field_config_from(m)->Ok_0,
                desired_state: field_desired_state(m)->Ok_0,
                svc_encrypted_password: field_password(m)->Ok_0,
                composite: field_composite(m)->Ok_0,
            },
        )
    }
}

/// The document table a spec is written out as: every field with a default
/// is always written; an optional field is written only when present.
pub open spec fn table_of_spec(v: ServiceSpecV) -> Map<Seq<char>, RawValV> {
    let m = Map::<Seq<char>, RawValV>::empty().insert(
        "ident"@,
        RawValV::Str(format_ident(v.ident)),
    ).insert("group"@, RawValV::Str(v.group)).insert(
        "bldr_url"@,
        RawValV::Str(v.bldr_url),
    ).insert("channel"@, RawValV::Str(v.channel)).insert(
        "topology"@,
        RawValV::Str(topology_text(v.topology)),
    ).insert("update_strategy"@, RawValV::Str(update_strategy_text(v.update_strategy))).insert(
        "binds"@,
        RawValV::List(v.binds.map_values(|b: ServiceBindV| format_bind(b))),
    ).insert("binding_mode"@, RawValV::Str(binding_mode_text(v.binding_mode))).insert(
        "desired_state"@,
        RawValV::Str(process_state_text(v.desired_state)),
    );
    let m1 = match v.application_environment {
        None => m,
        Some(ae) => m.insert("application_environment"@, RawValV::Str(format_app_env(ae))),
    };
    let m2 = match v.config_from {
        None => m1,
        Some(p) => m1.insert("config_from"@, RawValV::Str(p)),
    };
    let m3 = match v.svc_encrypted_password {
        None => m2,
        Some(p) => m2.insert("svc_encrypted_password"@, RawValV::Str(p)),
    };
    match v.composite {
        None => m3,
        Some(c) => m3.insert("composite"@, RawValV::Str(c)),
    }
}

/// The view of a read result.
pub open spec fn spec_result_view(r: Result<ServiceSpec, SpecError>) -> Result<
    ServiceSpecV,
    SpecErrV,
> {
    match r {
        Ok(s) => Ok(s@),
        Err(e) => Err(e@),
    }
}

// ---------------------------------------------------------------------------
// The executable reader and writer.
// ---------------------------------------------------------------------------

/// Reads a string-valued field out of a list of document entries.
pub(crate) fn get_str_field(entries: &Vec<(String, RawVal)>, key: &str) -> (r: Result<
    Option<String>,
    SpecError,
>)
    ensures
        match r {
            Ok(None) => str_field(table_map(entries@), key@) == Ok::<
                Option<Seq<char>>,
                SpecErrV,
            >(None),
            Ok(Some(s)) => str_field(table_map(entries@), key@) == Ok::<
                Option<Seq<char>>,
                SpecErrV,
            >(Some(s@)),
            Err(e) => str_field(table_map(entries@), key@) is Err && e@ == str_field(
                table_map(entries@),
                key@,
            )->Err_0,
        },
{
    match table_get(entries, key) {
        None => Ok(None),
        Some(v) => match v {
            RawVal::Str(s) => Ok(Some(s)),
            _ => Err(SpecError::ServiceSpecParse(key.to_owned())),
        },
    }
}

/// Reading a list of binding strings distributes over concatenation: the
/// left part is read first, and only when it is clean is the right part
/// read.
pub proof fn lemma_parse_binds_append(a: Seq<Seq<char>>, b: Seq<Seq<char>>)
    requires
        parse_binds_list(a) is Ok,
    ensures
        parse_binds_list(a + b) == match parse_binds_list(b) {
            Ok(bs) => Ok::<Seq<ServiceBindV>, SpecErrV>(parse_binds_list(a)->Ok_0 + bs),
            Err(e) => Err(e),
        },
    decreases a.len(),
{
    if a.len() == 0 {
        assert(a + b =~= b);
        match parse_binds_list(b) {
            Ok(bs) => {
                assert(parse_binds_list(a)->Ok_0 + bs =~= bs);
            },
            Err(_) => {},
        }
    } else {
        assert((a + b).len() > 0);
        assert((a + b).first() == a.first());
        assert((a + b).drop_first() =~= a.drop_first() + b);
        assert(parse_binds_list(a.drop_first()) is Ok);
        lemma_parse_binds_append(a.drop_first(), b);
        match parse_binds_list(b) {
            Ok(bs) => {
                let b0 = parse_bind(a.first())->Ok_0;
                let rest = parse_binds_list(a.drop_first())->Ok_0;
                assert(parse_binds_list(a)->Ok_0 == seq![b0] + rest);
                assert(parse_binds_list(a + b)->Ok_0 == seq![b0] + (rest + bs));
                assert(seq![b0] + (rest + bs) =~= (seq![b0] + rest) + bs);
            },
            Err(_) => {},
        }
    }
}

/// Reads the `binds` list; the error carries the first offending string.
pub(crate) fn get_binds_field(entries: &Vec<(String, RawVal)>) -> (r: Result<Vec<ServiceBind>, SpecError>)
    ensures
        match r {
            Ok(binds) => field_binds(table_map(entries@)) == Ok::<
                Seq<ServiceBindV>,
                SpecErrV,
            >(binds@.map_values(|b: ServiceBind| b@)),
            Err(e) => field_binds(table_map(entries@)) is Err && e@ == field_binds(
                table_map(entries@),
            )->Err_0,
        },
{
    let items: Vec<String> = match table_get(entries, "binds") {
        None => {
            let empty: Vec<ServiceBind> = Vec::new();
            proof {
                assert(empty@.map_values(|b: ServiceBind| b@) =~= Seq::<ServiceBindV>::empty());
            }
            return Ok(empty);
        },
        Some(v) => match v {
            RawVal::List(items) => items,
            _ => {
                return Err(SpecError::ServiceSpecParse("binds".to_owned()));
            },
        },
    };
    let ghost item_views = items@.map_values(|s: String| s@);
    let mut binds: Vec<ServiceBind> = Vec::new();
    let mut i: usize = 0;
    proof {
        assert(item_views.take(0) =~= Seq::<Seq<char>>::empty());
        assert(binds@.map_values(|b: ServiceBind| b@) =~= Seq::<ServiceBindV>::empty());
    }
    while i < items.len()
        invariant
            0 <= i <= items@.len(),
            item_views == items@.map_values(|s: String| s@),
            field_binds(table_map(entries@)) == parse_binds_list(item_views),
            parse_binds_list(item_views.take(i as int)) == Ok::<Seq<ServiceBindV>, SpecErrV>(
                binds@.map_values(|b: ServiceBind| b@),
            ),
        decreases items@.len() - i,
    {
        let bind = match ServiceBind::from_str(items[i].as_str()) {
            Ok(b) => b,
            Err(_) => {
                proof {
                    let done = item_views.take(i as int);
                    let rest = item_views.skip(i as int);
                    assert(item_views =~= done + rest);
                    lemma_parse_binds_append(done, rest);
                    assert(rest.first() == item_views[i as int]);
                    assert(parse_binds_list(rest) == Err::<Seq<ServiceBindV>, SpecErrV>(
                        SpecErrV::ServiceSpecParse(item_views[i as int]),
                    ));
                }
                return Err(SpecError::ServiceSpecParse(items[i].clone()));
            },
        };
        proof {
            let done = item_views.take(i as int);
            let one = seq![item_views[i as int]];
            assert(item_views.take(i + 1) =~= done + one);
            lemma_parse_binds_append(done, one);
            assert(one.first() == item_views[i as int]);
            assert(one.drop_first() =~= Seq::<Seq<char>>::empty());
            assert(item_views[i as int] == items@[i as int]@);
            let b0 = parse_bind(item_views[i as int])->Ok_0;
            assert(b0 == bind@);
            assert(parse_binds_list(Seq::<Seq<char>>::empty()) == Ok::<
                Seq<ServiceBindV>,
                SpecErrV,
            >(Seq::<ServiceBindV>::empty()));
            assert(parse_binds_list(one.drop_first()) == Ok::<Seq<ServiceBindV>, SpecErrV>(
                Seq::<ServiceBindV>::empty(),
            ));
            assert(parse_binds_list(one) == Ok::<Seq<ServiceBindV>, SpecErrV>(seq![b0]
                + Seq::<ServiceBindV>::empty()));
            assert(seq![b0] + Seq::<ServiceBindV>::empty() =~= seq![b0]);
            let old_views = binds@.map_values(|b: ServiceBind| b@);
            assert(parse_binds_list(item_views.take(i + 1)) == Ok::<
                Seq<ServiceBindV>,
                SpecErrV,
            >(old_views + seq![b0]));
        }
        let ghost old_binds = binds@;
        binds.push(bind);
        proof {
            assert(binds@.map_values(|b: ServiceBind| b@) =~= old_binds.map_values(
                |b: ServiceBind| b@,
            ) + seq![bind@]);
        }
        i = i + 1;
    }
    proof {
        assert(item_views.take(items@.len() as int) =~= item_views);
    }
    Ok(binds)
}



/// Appends one entry; the table the entries denote gains exactly that key.
fn push_entry(entries: &mut Vec<(String, EmitVal)>, key: String, val: EmitVal)
    ensures
        emit_map(final(entries)@) == emit_map(old(entries)@).insert(key@, val@),
{
    let ghost prior = entries@;
    let ghost k = key@;
    let ghost v = val@;
    entries.push((key, val));
    proof {
        assert(entries@.drop_last() =~= prior);
        assert(entries@.last().0@ == k);
        assert(entries@.last().1@ == v);
    }
}

impl ServiceSpec {
    /// Builds the spec a list of document entries denotes, field by field.
    /// The result is exactly what `spec_from_table` says of the table the
    /// entries denote.
    pub fn from_table(entries: &Vec<(String, RawVal)>) -> (r: Result<ServiceSpec, SpecError>)
        ensures
            spec_result_view(r) == spec_from_table(table_map(entries@)),
    {
        let ident = match get_str_field(entries, "ident") {
            Err(e) => {
                return Err(e);
            },
            Ok(None) => PackageIdent::zero(),
            Ok(Some(s)) => match PackageIdent::parse(s.as_str()) {
                Ok(id) => id,
                Err(_) => {
                    return Err(SpecError::ServiceSpecParse(s));
                },
            },
        };
        let group = match get_str_field(entries, "group") {
            Err(e) => {
                return Err(e);
            },
            Ok(None) => "default".to_owned(),
            Ok(Some(s)) => s,
        };
        let application_environment = match get_str_field(entries, "application_environment") {
            Err(e) => {
                return Err(e);
            },
            Ok(None) => None,
            Ok(Some(s)) => match ApplicationEnvironment::parse(s.as_str()) {
                Some(ae) => Some(ae),
                None => {
                    return Err(SpecError::ServiceSpecParse(s));
                },
            },
        };
        let bldr_url = match get_str_field(entries, "bldr_url") {
            Err(e) => {
                return Err(e);
            },
            Ok(None) => DEFAULT_BLDR_URL.to_owned(),
            Ok(Some(s)) => s,
        };
        let channel = match get_str_field(entries, "channel") {
            Err(e) => {
                return Err(e);
            },
            Ok(None) => "stable".to_owned(),
            Ok(Some(s)) => s,
        };
        let topology = match get_str_field(entries, "topology") {
            Err(e) => {
                return Err(e);
            },
            Ok(None) => Topology::Standalone,
            Ok(Some(s)) => match Topology::parse(s.as_str()) {
                Some(t) => t,
                None => {
                    return Err(SpecError::ServiceSpecParse(s));
                },
            },
        };
        let update_strategy = match get_str_field(entries, "update_strategy") {
            Err(e) => {
                return Err(e);
            },
            Ok(None) => UpdateStrategy::Disabled,
            Ok(Some(s)) => match UpdateStrategy::parse(s.as_str()) {
                Some(u) => u,
                None => {
                    return Err(SpecError::ServiceSpecParse(s));
                },
            },
        };
        let binds = match get_binds_field(entries) {
            Err(e) => {
                return Err(e);
            },
            Ok(bs) => bs,
        };
        let binding_mode = match get_str_field(entries, "binding_mode") {
            Err(e) => {
                return Err(e);
            },
            Ok(None) => BindingMode::Strict,
            Ok(Some(s)) => match BindingMode::parse(s.as_str()) {
                Some(b) => b,
                None => {
                    return Err(SpecError::ServiceSpecParse(s));
                },
            },
        };
        let config_from = match get_str_field(entries, "config_from") {
            Err(e) => {
                return Err(e);
            },
            Ok(opt) => opt,
        };
        let desired_state = match get_str_field(entries, "desired_state") {
            Err(e) => {
                return Err(e);
            },
            Ok(None) => ProcessState::Up,
            Ok(Some(s)) => match ProcessState::parse(s.as_str()) {
                Some(p) => p,
                None => {
                    return Err(SpecError::ServiceSpecParse(s));
                },
            },
        };
        let svc_encrypted_password = match get_str_field(entries, "svc_encrypted_password") {
            Err(e) => {
                return Err(e);
            },
            Ok(opt) => opt,
        };
        let composite = match get_str_field(entries, "composite") {
            Err(e) => {
                return Err(e);
            },
            Ok(opt) => opt,
        };
        if ident.is_default() {
            return Err(SpecError::MissingRequiredIdent);
        }
        Ok(
            ServiceSpec {
                ident,
                group,
                application_environment,
                bldr_url,
                channel,
                topology,
                update_strategy,
                binds,
                binding_mode,
                config_from,
                desired_state,
                svc_encrypted_password,
                composite,
            },
        )
    }

    /// Reads a spec out of a document. A text that is no well-formed
    /// document at all fails with the parser's diagnostic; a well-formed one
    /// is read exactly as `spec_from_table` says.
    pub fn from_str(toml_text: &str) -> (r: Result<ServiceSpec, SpecError>)
        ensures
            match toml_table_of(toml_text@) {
                Some(t) => spec_result_view(r) == spec_from_table(t),
                None => r is Err && r->Err_0@ is ServiceSpecParse,
            },
    {
        match read_toml_table(toml_text) {
            Ok(entries) => Self::from_table(&entries),
            Err(msg) => Err(SpecError::ServiceSpecParse(msg)),
        }
    }

    /// Writes the spec out as a document. A spec whose identity is the zero
    /// value is never written; otherwise the text reads back as exactly the
    /// table `table_of_spec` says.
    pub fn to_toml_string(&self) -> (r: Result<String, SpecError>)
        ensures
            match r {
                Ok(text) => self@.ident != default_ident() && toml_table_of(text@) == Some(
                    table_of_spec(self@),
                ),
                Err(e) => self@.ident == default_ident() && e@
                    == SpecErrV::MissingRequiredIdent,
            },
    {
        if self.ident.is_default() {
            return Err(SpecError::MissingRequiredIdent);
        }
        let mut bind_texts: Vec<String> = Vec::new();
        let mut i: usize = 0;
        while i < self.binds.len()
            invariant
                0 <= i <= self.binds@.len(),
                bind_texts@.len() == i,
                forall|j: int|
                    0 <= j < i ==> (#[trigger] bind_texts@[j])@ == format_bind(self.binds@[j]@),
            decreases self.binds@.len() - i,
        {
            let text = self.binds[i].to_string();
            bind_texts.push(text);
            i = i + 1;
        }
        proof {
            assert(bind_texts@.map_values(|s: String| s@) =~= self@.binds.map_values(
                |b: ServiceBindV| format_bind(b),
            ));
        }
        let mut entries: Vec<(String, EmitVal)> = Vec::new();
        proof {
            assert(emit_map(entries@) =~= Map::<Seq<char>, RawValV>::empty());
        }
        push_entry(&mut entries, "ident".to_owned(), EmitVal::Str(self.ident.to_text()));
        push_entry(&mut entries, "group".to_owned(), EmitVal::Str(self.group.clone()));
        push_entry(&mut entries, "bldr_url".to_owned(), EmitVal::Str(self.bldr_url.clone()));
        push_entry(&mut entries, "channel".to_owned(), EmitVal::Str(self.channel.clone()));
        push_entry(&mut entries, "topology".to_owned(), EmitVal::Str(self.topology.to_text()));
        push_entry(
            &mut entries,
            "update_strategy".to_owned(),
            EmitVal::Str(self.update_strategy.to_text()),
        );
        push_entry(&mut entries, "binds".to_owned(), EmitVal::List(bind_texts));
        push_entry(
            &mut entries,
            "binding_mode".to_owned(),
            EmitVal::Str(self.binding_mode.to_text()),
        );
        push_entry(
            &mut entries,
            "desired_state".to_owned(),
            EmitVal::Str(self.desired_state.to_text()),
        );
        match self.application_environment {
            None => {},
            Some(ref ae) => {
                push_entry(
                    &mut entries,
                    "application_environment".to_owned(),
                    EmitVal::Str(ae.to_text()),
                );
            },
        }
        match self.config_from {
            None => {},
            Some(ref p) => {
                push_entry(&mut entries, "config_from".to_owned(), EmitVal::Str(p.clone()));
            },
        }
        match self.svc_encrypted_password {
            None => {},
            Some(ref p) => {
                push_entry(
                    &mut entries,
                    "svc_encrypted_password".to_owned(),
                    EmitVal::Str(p.clone()),
                );
            },
        }
        match self.composite {
            None => {},
            Some(ref c) => {
                push_entry(&mut entries, "composite".to_owned(), EmitVal::Str(c.clone()));
            },
        }
        let text = write_toml_table(&entries);
        proof {
            assert(emit_map(entries@) == table_of_spec(self@));
        }
        Ok(text)
    }

    /// The default spec for the given identity: every other field at its
    /// default.
    pub fn default_for(ident: PackageIdent) -> (r: ServiceSpec)
        ensures
            r@ == (ServiceSpecV { ident: ident@, ..default_spec() }),
    {
        let mut spec = ServiceSpec::default();
        spec.ident = ident;
        spec
    }

    /// The canonical file name of this spec: the identity's name component
    /// with the spec extension. Two identities sharing a name collide on
    /// the same file name whatever their origins; that derivation is kept
    /// deliberately.
    pub fn file_name(&self) -> (r: String)
        ensures
            r@ == self@.ident.name + ".spec"@,
    {
        let mut out = self.ident.name.clone();
        out.append(".spec");
        out
    }
}

impl Default for ServiceSpec {
    /// The spec every document starts from.
    fn default() -> (r: ServiceSpec)
        ensures
            r@ == default_spec(),
    {
        let r = ServiceSpec {
            ident: PackageIdent::zero(),
            group: "default".to_owned(),
            application_environment: None,
            bldr_url: DEFAULT_BLDR_URL.to_owned(),
            channel: "stable".to_owned(),
            topology: Topology::Standalone,
            update_strategy: UpdateStrategy::Disabled,
            binds: Vec::new(),
            binding_mode: BindingMode::Strict,
            config_from: None,
            desired_state: ProcessState::Up,
            svc_encrypted_password: None,
            composite: None,
        };
        proof {
            assert(r@.binds =~= default_spec().binds);
        }
        r
    }
}


/// Bindings read from a clean list of strings read back unchanged from
/// their own renderings.
pub proof fn lemma_binds_round_trip(items: Seq<Seq<char>>)
    requires
        parse_binds_list(items) is Ok,
    ensures
        parse_binds_list(
            (parse_binds_list(items)->Ok_0).map_values(|b: ServiceBindV| format_bind(b)),
        ) == parse_binds_list(items),
    decreases items.len(),
{
    let bs = parse_binds_list(items)->Ok_0;
    let mapped = bs.map_values(|b: ServiceBindV| format_bind(b));
    if items.len() == 0 {
        assert(bs =~= Seq::<ServiceBindV>::empty());
        assert(mapped =~= Seq::<Seq<char>>::empty());
        assert(parse_binds_list(mapped) == Ok::<Seq<ServiceBindV>, SpecErrV>(
            Seq::<ServiceBindV>::empty(),
        ));
        assert(parse_binds_list(mapped)->Ok_0 =~= bs);
    } else {
        let s0 = items.first();
        assert(parse_bind(s0) is Ok);
        let b0 = parse_bind(s0)->Ok_0;
        crate::bind::lemma_bind_format_parse(s0);
        assert(format_bind(b0) == s0);
        assert(parse_binds_list(items.drop_first()) is Ok);
        lemma_binds_round_trip(items.drop_first());
        let rest = parse_binds_list(items.drop_first())->Ok_0;
        assert(bs == seq![b0] + rest);
        assert(bs.len() == 1 + rest.len());
        assert(mapped.len() == bs.len());
        assert(bs[0] == b0);
        assert(mapped.first() == format_bind(b0));
        assert(mapped.first() == s0);
        let rest_mapped = rest.map_values(|b: ServiceBindV| format_bind(b));
        assert forall|j: int| 0 <= j < rest.len() implies #[trigger] mapped.drop_first()[j]
            == rest_mapped[j] by {
            assert(bs[j + 1] == rest[j]);
            assert(mapped[j + 1] == format_bind(bs[j + 1]));
        }
        assert(mapped.drop_first() =~= rest_mapped);
        assert(parse_bind(mapped.first()) == Ok::<ServiceBindV, SpecErrV>(b0));
        assert(parse_binds_list(mapped.drop_first()) == parse_binds_list(rest_mapped));
        assert(parse_binds_list(rest_mapped) == Ok::<Seq<ServiceBindV>, SpecErrV>(rest));
        assert(parse_binds_list(mapped) == Ok::<Seq<ServiceBindV>, SpecErrV>(seq![b0] + rest));
    }
}

/// The serialization round-trip: whatever spec a document table denotes,
/// the table that spec is written out as denotes that same spec again.
/// Rendered text may differ from the source text; the value read back does
/// not.
#[verifier::rlimit(60)]
pub proof fn lemma_spec_round_trip(t: Map<Seq<char>, RawValV>)
    requires
        spec_from_table(t) is Ok,
    ensures
        spec_from_table(table_of_spec(spec_from_table(t)->Ok_0)) == spec_from_table(t),
{
    let v = spec_from_table(t)->Ok_0;
    let m2 = table_of_spec(v);
    crate::choices::lemma_choice_texts_parse_back();
    reveal_strlit("ident");
    reveal_strlit("group");
    reveal_strlit("application_environment");
    reveal_strlit("bldr_url");
    reveal_strlit("channel");
    reveal_strlit("topology");
    reveal_strlit("update_strategy");
    reveal_strlit("binds");
    reveal_strlit("binding_mode");
    reveal_strlit("config_from");
    reveal_strlit("desired_state");
    reveal_strlit("svc_encrypted_password");
    reveal_strlit("composite");
    // the keys differ in length, or else in their first character
    assert("channel"@.len() == 7 && "update_strategy"@.len() == 15 && "binding_mode"@.len()
        == 12 && "desired_state"@.len() == 13 && "application_environment"@.len() == 23
        && "config_from"@.len() == 11 && "svc_encrypted_password"@.len() == 22
        && "composite"@.len() == 9);
    assert("ident"@.len() == 5 && "group"@.len() == 5 && "binds"@.len() == 5);
    assert("ident"@[0] == 'i' && "group"@[0] == 'g' && "binds"@[0] == 'b');
    assert("ident"@ != "group"@ && "ident"@ != "binds"@ && "group"@ != "binds"@);
    assert("bldr_url"@.len() == 8 && "topology"@.len() == 8);
    assert("bldr_url"@[0] == 'b' && "topology"@[0] == 't');
    assert("bldr_url"@ != "topology"@);
    // the identity was present in the source and renders back to its text
    assert(field_ident(t) == Ok::<PackageIdentV, SpecErrV>(v.ident));
    assert(v.ident != default_ident());
    assert(str_field(t, "ident"@) is Ok);
    let ident_text = str_field(t, "ident"@)->Ok_0;
    assert(ident_text is Some);
    crate::ident::lemma_ident_format_parse(ident_text->0);
    assert(format_ident(v.ident) == ident_text->0);
    assert(parse_ident(format_ident(v.ident)) == Some(v.ident));
    assert(m2.contains_key("ident"@) && m2["ident"@] == RawValV::Str(format_ident(v.ident)));
    assert(field_ident(m2) == Ok::<PackageIdentV, SpecErrV>(v.ident));
    // plain string fields come back as they are
    assert(m2["group"@] == RawValV::Str(v.group));
    assert(field_group(m2) == Ok::<Seq<char>, SpecErrV>(v.group));
    assert(m2["bldr_url"@] == RawValV::Str(v.bldr_url));
    assert(field_bldr_url(m2) == Ok::<Seq<char>, SpecErrV>(v.bldr_url));
    assert(m2["channel"@] == RawValV::Str(v.channel));
    assert(field_channel(m2) == Ok::<Seq<char>, SpecErrV>(v.channel));
    // the application/environment pair renders back to its own text
    match v.application_environment {
        None => {
            assert(!m2.contains_key("application_environment"@));
            assert(field_app_env(m2) == Ok::<Option<AppEnvV>, SpecErrV>(None));
        },
        Some(ae) => {
            assert(field_app_env(t) == Ok::<Option<AppEnvV>, SpecErrV>(Some(ae)));
            let ae_text = str_field(t, "application_environment"@)->Ok_0;
            assert(ae_text is Some);
            assert(parse_app_env(ae_text->0) == Some(ae));
            crate::service_group::lemma_app_env_format_parse(ae_text->0);
            assert(format_app_env(ae) == ae_text->0);
            assert(m2["application_environment"@] == RawValV::Str(format_app_env(ae)));
            assert(field_app_env(m2) == Ok::<Option<AppEnvV>, SpecErrV>(Some(ae)));
        },
    }
    // the mode words parse back to the same values
    assert(m2["topology"@] == RawValV::Str(topology_text(v.topology)));
    assert(field_topology(m2) == Ok::<Topology, SpecErrV>(v.topology));
    assert(m2["update_strategy"@] == RawValV::Str(update_strategy_text(v.update_strategy)));
    assert(field_update_strategy(m2) == Ok::<UpdateStrategy, SpecErrV>(v.update_strategy));
    assert(m2["binding_mode"@] == RawValV::Str(binding_mode_text(v.binding_mode)));
    assert(field_binding_mode(m2) == Ok::<BindingMode, SpecErrV>(v.binding_mode));
    assert(m2["desired_state"@] == RawValV::Str(process_state_text(v.desired_state)));
    assert(field_desired_state(m2) == Ok::<ProcessState, SpecErrV>(v.desired_state));
    // every binding renders back to a string that parses to it
    assert(field_binds(t) == Ok::<Seq<ServiceBindV>, SpecErrV>(v.binds));
    let binds_out = v.binds.map_values(|b: ServiceBindV| format_bind(b));
    assert(m2["binds"@] == RawValV::List(binds_out));
    if !t.contains_key("binds"@) {
        assert(v.binds =~= Seq::<ServiceBindV>::empty());
        assert(binds_out =~= Seq::<Seq<char>>::empty());
        assert(parse_binds_list(binds_out) == Ok::<Seq<ServiceBindV>, SpecErrV>(
            Seq::<ServiceBindV>::empty(),
        ));
        assert(field_binds(m2) == Ok::<Seq<ServiceBindV>, SpecErrV>(v.binds));
    } else {
        let items = m2["binds"@];
        match t["binds"@] {
            RawValV::List(src_items) => {
                assert(parse_binds_list(src_items) == Ok::<Seq<ServiceBindV>, SpecErrV>(
                    v.binds,
                ));
                lemma_binds_round_trip(src_items);
                assert(parse_binds_list(binds_out) == Ok::<Seq<ServiceBindV>, SpecErrV>(
                    v.binds,
                ));
                assert(field_binds(m2) == Ok::<Seq<ServiceBindV>, SpecErrV>(v.binds));
            },
            _ => {
                assert(false);
            },
        }
    }
    // the optional plain strings come back as they are
    match v.config_from {
        None => {
            assert(!m2.contains_key("config_from"@));
        },
        Some(p) => {
            assert(m2["config_from"@] == RawValV::Str(p));
        },
    }
    assert(field_config_from(m2) == Ok::<Option<Seq<char>>, SpecErrV>(v.config_from));
    match v.svc_encrypted_password {
        None => {
            assert(!m2.contains_key("svc_encrypted_password"@));
        },
        Some(p) => {
            assert(m2["svc_encrypted_password"@] == RawValV::Str(p));
        },
    }
    assert(field_password(m2) == Ok::<Option<Seq<char>>, SpecErrV>(v.svc_encrypted_password));
    match v.composite {
        None => {
            assert(!m2.contains_key("composite"@));
        },
        Some(c) => {
            assert(m2["composite"@] == RawValV::Str(c));
        },
    }
    assert(field_composite(m2) == Ok::<Option<Seq<char>>, SpecErrV>(v.composite));
    assert(spec_from_table(m2) == Ok::<ServiceSpecV, SpecErrV>(v));
}

} // verus!
