use vstd::prelude::*;

use crate::bind::{ServiceBind, ServiceBindV};
use crate::choices::{
    parse_binding_mode, parse_process_state, parse_topology, parse_update_strategy, BindingMode,
    ProcessState, Topology, UpdateStrategy,
};
use crate::error::{SpecErrV, SpecError};
use crate::ident::{default_ident, parse_ident, PackageIdent, PackageIdentV};
use crate::service_group::{parse_app_env, ApplicationEnvironment, AppEnvV};
use crate::spec::{
    default_spec, parse_binds_list, spec_result_view, str_field, ServiceSpec, ServiceSpecV,
    DEFAULT_BLDR_URL,
};
use crate::toml_codec::{read_toml_table, table_get, table_map, toml_table_of, RawVal, RawValV};

verus! {

/// The superseded on-disk schema. It records, for every field but the
/// identity, whether the document said anything at all: an absent field
/// leaves the corresponding current field at its default on upgrade. It is
/// only ever read, never written.
#[derive(Debug, Clone, PartialEq, Eq)]
pub struct ServiceSpecLegacy {
    pub ident: PackageIdent,
    pub group: Option<String>,
    pub application_environment: Option<ApplicationEnvironment>,
    pub bldr_url: Option<String>,
    pub channel: Option<String>,
    pub topology: Option<Topology>,
    pub update_strategy: Option<UpdateStrategy>,
    pub binds: Option<Vec<ServiceBind>>,
    pub binding_mode: Option<BindingMode>,
    pub config_from: Option<String>,
    pub desired_state: Option<ProcessState>,
    pub svc_encrypted_password: Option<String>,
    pub composite: Option<String>,
}

/// The mathematical image of a `ServiceSpecLegacy`.
pub struct LegacySpecV {
    pub ident: PackageIdentV,
    pub group: Option<Seq<char>>,
    pub application_environment: Option<AppEnvV>,
    pub bldr_url: Option<Seq<char>>,
    pub channel: Option<Seq<char>>,
    pub topology: Option<Topology>,
    pub update_strategy: Option<UpdateStrategy>,
    pub binds: Option<Seq<ServiceBindV>>,
    pub binding_mode: Option<BindingMode>,
    pub config_from: Option<Seq<char>>,
    pub desired_state: Option<ProcessState>,
    pub svc_encrypted_password: Option<Seq<char>>,
    pub composite: Option<Seq<char>>,
}

impl View for ServiceSpecLegacy {
    type V = LegacySpecV;

    open spec fn view(&self) -> LegacySpecV {
        LegacySpecV {
            ident: self.ident@,
            group: match self.group {
                Some(ref g) => Some(g@),
                None => None,
            },
            application_environment: match self.application_environment {
                Some(ref ae) => Some(ae@),
                None => None,
            },
            bldr_url: match self.bldr_url {
                Some(ref u) => Some(u@),
                None => None,
            },
            channel: match self.channel {
                Some(ref c) => Some(c@),
                None => None,
            },
            topology: self.topology,
            update_strategy: self.update_strategy,
            binds: match self.binds {
                Some(ref bs) => Some(bs@.map_values(|b: ServiceBind| b@)),
                None => None,
            },
            binding_mode: self.binding_mode,
            config_from: match self.config_from {
                Some(ref p) => Some(p@),
                None => None,
            },
            desired_state: self.desired_state,
            svc_encrypted_password: match self.svc_encrypted_password {
                Some(ref p) => Some(p@),
                None => None,
            },
            composite: match self.composite {
                Some(ref c) => Some(c@),
                None => None,
            },
        }
    }
}

/// What a well-formed legacy document table denotes. The same grammar per
/// field as the current schema, but presence is recorded instead of filling
/// defaults in; the identity is required just as it is there.
pub open spec fn legacy_from_table(m: Map<Seq<char>, RawValV>) -> Result<LegacySpecV, SpecErrV> {
    if lf_ident(m) is Err {
        Err(lf_ident(m)->Err_0)
    } else if str_field(m, "group"@) is Err {
        Err(str_field(m, "group"@)->Err_0)
    } else if lf_app_env(m) is Err {
        Err(lf_app_env(m)->Err_0)
    } else if str_field(m, "bldr_url"@) is Err {
        Err(str_field(m, "bldr_url"@)->Err_0)
    } else if str_field(m, "channel"@) is Err {
        Err(str_field(m, "channel"@)->Err_0)
    } else if lf_topology(m) is Err {
        Err(lf_topology(m)->Err_0)
    } else if lf_update_strategy(m) is Err {
        Err(lf_update_strategy(m)->Err_0)
    } else if lf_binds(m) is Err {
        Err(lf_binds(m)->Err_0)
    } else if lf_binding_mode(m) is Err {
        Err(lf_binding_mode(m)->Err_0)
    } else if str_field(m, "config_from"@) is Err {
        Err(str_field(m, "config_from"@)->Err_0)
    } else if lf_desired_state(m) is Err {
        Err(lf_desired_state(m)->Err_0)
    } else if str_field(m, "svc_encrypted_password"@) is Err {
        Err(str_field(m, "svc_encrypted_password"@)->Err_0)
    } else if str_field(m, "composite"@) is Err {
        Err(str_field(m, "composite"@)->Err_0)
    } else if lf_ident(m)->Ok_0 == default_ident() {
        Err(SpecErrV::MissingRequiredIdent)
    } else {
        Ok(
            LegacySpecV {
                ident: lf_ident(m)->Ok_0,
                group: str_field(m, "group"@)->Ok_0,
                application_environment: lf_app_env(m)->Ok_0,
                bldr_url: str_field(m, "bldr_url"@)->Ok_0,
                channel: str_field(m, "channel"@)->Ok_0,
                topology: lf_topology(m)->Ok_0,
                update_strategy: lf_update_strategy(m)->Ok_0,
                binds: lf_binds(m)->Ok_0,
                binding_mode: lf_binding_mode(m)->Ok_0,
                config_from: str_field(m, "config_from"@)->Ok_0,
                desired_state: lf_desired_state(m)->Ok_0,
                svc_encrypted_password: str_field(m, "svc_encrypted_password"@)->Ok_0,
                composite: str_field(m, "composite"@)->Ok_0,
            },
        )
    }
}

pub open spec fn lf_ident(m: Map<Seq<char>, RawValV>) -> Result<PackageIdentV, SpecErrV> {
    crate::spec::field_ident(m)
}

pub open spec fn lf_app_env(m: Map<Seq<char>, RawValV>) -> Result<Option<AppEnvV>, SpecErrV> {
    crate::spec::field_app_env(m)
}

pub open spec fn lf_topology(m: Map<Seq<char>, RawValV>) -> Result<Option<Topology>, SpecErrV> {
    match str_field(m, "topology"@) {
        Err(e) => Err(e),
        Ok(None) => Ok(None),
        Ok(Some(s)) => match parse_topology(s) {
            None => Err(SpecErrV::ServiceSpecParse(s)),
            Some(t) => Ok(Some(t)),
        },
    }
}

pub open spec fn lf_update_strategy(m: Map<Seq<char>, RawValV>) -> Result<
    Option<UpdateStrategy>,
    SpecErrV,
> {
    match str_field(m, "update_strategy"@) {
        Err(e) => Err(e),
        Ok(None) => Ok(None),
        Ok(Some(s)) => match parse_update_strategy(s) {
            None => Err(SpecErrV::ServiceSpecParse(s)),
            Some(u) => Ok(Some(u)),
        },
    }
}

pub open spec fn lf_binding_mode(m: Map<Seq<char>, RawValV>) -> Result<
    Option<BindingMode>,
    SpecErrV,
> {
    match str_field(m, "binding_mode"@) {
        Err(e) => Err(e),
        Ok(None) => Ok(None),
        Ok(Some(s)) => match parse_binding_mode(s) {
            None => Err(SpecErrV::ServiceSpecParse(s)),
            Some(b) => Ok(Some(b)),
        },
    }
}

pub open spec fn lf_desired_state(m: Map<Seq<char>, RawValV>) -> Result<
    Option<ProcessState>,
    SpecErrV,
> {
    match str_field(m, "desired_state"@) {
        Err(e) => Err(e),
        Ok(None) => Ok(None),
        Ok(Some(s)) => match parse_process_state(s) {
            None => Err(SpecErrV::ServiceSpecParse(s)),
            Some(p) => Ok(Some(p)),
        },
    }
}

pub open spec fn lf_binds(m: Map<Seq<char>, RawValV>) -> Result<
    Option<Seq<ServiceBindV>>,
    SpecErrV,
> {
    if !m.contains_key("binds"@) {
        Ok(None)
    } else {
        match m["binds"@] {
            RawValV::List(items) => match parse_binds_list(items) {
                Err(e) => Err(e),
                Ok(bs) => Ok(Some(bs)),
            },
            _ => Err(SpecErrV::ServiceSpecParse("binds"@)),
        }
    }
}

/// The upgrade of a legacy record: every present legacy field lands on the
/// corresponding current field; every absent one leaves the current field
/// at its default — a legacy document without a channel upgrades to the
/// current default channel, never to an empty one.
pub open spec fn upgraded(l: LegacySpecV) -> ServiceSpecV {
    ServiceSpecV {
        ident: l.ident,
        group: match l.group {
            None => default_spec().group,
            Some(g) => g,
        },
        application_environment: l.application_environment,
        bldr_url: match l.bldr_url {
            None => default_spec().bldr_url,
            Some(u) => u,
        },
        channel: match l.channel {
            None => default_spec().channel,
            Some(c) => c,
        },
        topology: match l.topology {
            None => default_spec().topology,
            Some(t) => t,
        },
        update_strategy: match l.update_strategy {
            None => default_spec().update_strategy,
            Some(u) => u,
        },
        binds: match l.binds {
            None => default_spec().binds,
            Some(bs) => bs,
        },
        binding_mode: match l.binding_mode {
            None => default_spec().binding_mode,
            Some(b) => b,
        },
        config_from: l.config_from,
        desired_state: match l.desired_state {
            None => default_spec().desired_state,
            Some(d) => d,
        },
        svc_encrypted_password: l.svc_encrypted_password,
        composite: l.composite,
    }
}

/// The view of a legacy read result.
pub open spec fn legacy_result_view(r: Result<ServiceSpecLegacy, SpecError>) -> Result<
    LegacySpecV,
    SpecErrV,
> {
    match r {
        Ok(l) => Ok(l@),
        Err(e) => Err(e@),
    }
}

impl ServiceSpecLegacy {
    /// Reads a legacy spec out of a document, exactly as `legacy_from_table`
    /// says of the table the document denotes.
    pub fn from_str(toml_text: &str) -> (r: Result<ServiceSpecLegacy, SpecError>)
        ensures
            match toml_table_of(toml_text@) {
                Some(t) => legacy_result_view(r) == legacy_from_table(t),
                None => r is Err && r->Err_0@ is ServiceSpecParse,
            },
    {
        match read_toml_table(toml_text) {
            Ok(entries) => Self::from_table(&entries),
            Err(msg) => Err(SpecError::ServiceSpecParse(msg)),
        }
    }

    /// Builds the legacy record a list of document entries denotes.
    pub fn from_table(entries: &Vec<(String, RawVal)>) -> (r: Result<
        ServiceSpecLegacy,
        SpecError,
    >)
        ensures
            legacy_result_view(r) == legacy_from_table(table_map(entries@)),
    {
        let ident = match crate::spec::get_str_field(entries, "ident") {
            Err(e) => {
                return Err(e);
            },
            Ok(None) => PackageIdent::zero(),
            Ok(Some(s)) => match PackageIdent::parse(s.as_str()) {
                Ok(id) => id,
                Err(_) => {
                    return Err(SpecError::ServiceSpecParse(s));
                },
            },
        };
        let group = match crate::spec::get_str_field(entries, "group") {
            Err(e) => {
                return Err(e);
            },
            Ok(opt) => opt,
        };
        let application_environment = match crate::spec::get_str_field(
            entries,
            "application_environment",
        ) {
            Err(e) => {
                return Err(e);
            },
            Ok(None) => None,
            Ok(Some(s)) => match ApplicationEnvironment::parse(s.as_str()) {
                Some(ae) => Some(ae),
                None => {
                    return Err(SpecError::ServiceSpecParse(s));
                },
            },
        };
        let bldr_url = match crate::spec::get_str_field(entries, "bldr_url") {
            Err(e) => {
                return Err(e);
            },
            Ok(opt) => opt,
        };
        let channel = match crate::spec::get_str_field(entries, "channel") {
            Err(e) => {
                return Err(e);
            },
            Ok(opt) => opt,
        };
        let topology = match crate::spec::get_str_field(entries, "topology") {
            Err(e) => {
                return Err(e);
            },
            Ok(None) => None,
            Ok(Some(s)) => match Topology::parse(s.as_str()) {
                Some(t) => Some(t),
                None => {
                    return Err(SpecError::ServiceSpecParse(s));
                },
            },
        };
        let update_strategy = match crate::spec::get_str_field(entries, "update_strategy") {
            Err(e) => {
                return Err(e);
            },
            Ok(None) => None,
            Ok(Some(s)) => match UpdateStrategy::parse(s.as_str()) {
                Some(u) => Some(u),
                None => {
                    return Err(SpecError::ServiceSpecParse(s));
                },
            },
        };
        let binds = match crate::spec::get_binds_field(entries) {
            Err(e) => {
                return Err(e);
            },
            Ok(bs) => bs,
        };
        let binds_present = crate::toml_codec::table_has(entries, "binds");
        let binds = if binds_present {
            Some(binds)
        } else {
            None
        };
        let binding_mode = match crate::spec::get_str_field(entries, "binding_mode") {
            Err(e) => {
                return Err(e);
            },
            Ok(None) => None,
            Ok(Some(s)) => match BindingMode::parse(s.as_str()) {
                Some(b) => Some(b),
                None => {
                    return Err(SpecError::ServiceSpecParse(s));
                },
            },
        };
        let config_from = match crate::spec::get_str_field(entries, "config_from") {
            Err(e) => {
                return Err(e);
            },
            Ok(opt) => opt,
        };
        let desired_state = match crate::spec::get_str_field(entries, "desired_state") {
            Err(e) => {
                return Err(e);
            },
            Ok(None) => None,
            Ok(Some(s)) => match ProcessState::parse(s.as_str()) {
                Some(p) => Some(p),
                None => {
                    return Err(SpecError::ServiceSpecParse(s));
                },
            },
        };
        let svc_encrypted_password = match crate::spec::get_str_field(
            entries,
            "svc_encrypted_password",
        ) {
            Err(e) => {
                return Err(e);
            },
            Ok(opt) => opt,
        };
        let composite = match crate::spec::get_str_field(entries, "composite") {
            Err(e) => {
                return Err(e);
            },
            Ok(opt) => opt,
        };
        if ident.is_default() {
            return Err(SpecError::MissingRequiredIdent);
        }
        Ok(
            ServiceSpecLegacy {
                ident,
                group,
                application_environment,
                bldr_url,
                channel,
                topology,
                update_strategy,
                binds,
                binding_mode,
                config_from,
                desired_state,
                svc_encrypted_password,
                composite,
            },
        )
    }

    /// The canonical file name, derived from the identity's name component
    /// alone, as for the current schema.
    pub fn file_name(&self) -> (r: String)
        ensures
            r@ == self@.ident.name + ".spec"@,
    {
        let mut out = self.ident.name.clone();
        out.append(".spec");
        out
    }

    /// Upgrades the legacy record into the current schema, exactly as
    /// `upgraded` says.
    pub fn to_latest(self) -> (r: ServiceSpec)
        ensures
            r@ == upgraded(self@),
    {
        let mut spec = ServiceSpec::default();
        spec.ident = self.ident;
        match self.group {
            None => {},
            Some(g) => {
                spec.group = g;
            },
        }
        spec.application_environment = self.application_environment;
        match self.bldr_url {
            None => {},
            Some(u) => {
                spec.bldr_url = u;
            },
        }
        match self.channel {
            None => {},
            Some(c) => {
                spec.channel = c;
            },
        }
        match self.topology {
            None => {},
            Some(t) => {
                spec.topology = t;
            },
        }
        match self.update_strategy {
            None => {},
            Some(u) => {
                spec.update_strategy = u;
            },
        }
        match self.binds {
            None => {},
            Some(bs) => {
                spec.binds = bs;
            },
        }
        match self.binding_mode {
            None => {},
            Some(b) => {
                spec.binding_mode = b;
            },
        }
        spec.config_from = self.config_from;
        match self.desired_state {
            None => {},
            Some(d) => {
                spec.desired_state = d;
            },
        }
        spec.svc_encrypted_password = self.svc_encrypted_password;
        spec.composite = self.composite;
        spec
    }
}

} // verus!
