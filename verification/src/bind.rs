use vstd::prelude::*;

use crate::error::{SpecErrV, SpecError};
use crate::service_group::{
    format_service_group, lemma_sg_format_parse, parse_service_group, ServiceGroup, ServiceGroupV,
};
use crate::strutil::{join_with, lemma_join_split, split_on, split_string, views_of};

verus! {

/// A named dependency link from one service to a service group that
/// satisfies it. A present `service_name` scopes the binding to one named
/// member of a composite.
#[derive(Debug, Clone, PartialEq, Eq, Hash)]
pub struct ServiceBind {
    pub name: String,
    pub service_group: ServiceGroup,
    pub service_name: Option<String>,
}

/// The mathematical image of a `ServiceBind`.
pub struct ServiceBindV {
    pub name: Seq<char>,
    pub service_group: ServiceGroupV,
    pub service_name: Option<Seq<char>>,
}

impl View for ServiceBind {
    type V = ServiceBindV;

    open spec fn view(&self) -> ServiceBindV {
        ServiceBindV {
            name: self.name@,
            service_group: self.service_group@,
            service_name: match self.service_name {
                Some(ref n) => Some(n@),
                None => None,
            },
        }
    }
}

/// The binding grammar, split on `:`. Two segments are
/// `name:service_group`; three are `service_name:name:service_group`; any
/// other count is an invalid binding carrying the original text.
pub open spec fn parse_bind(s: Seq<char>) -> Result<ServiceBindV, SpecErrV> {
    let parts = split_on(s, ':');
    if parts.len() == 2 {
        match parse_service_group(parts[1]) {
            None => Err(SpecErrV::InvalidServiceGroup(parts[1])),
            Some(g) => Ok(ServiceBindV { name: parts[0], service_group: g, service_name: None }),
        }
    } else if parts.len() == 3 {
        match parse_service_group(parts[2]) {
            None => Err(SpecErrV::InvalidServiceGroup(parts[2])),
            Some(g) => Ok(
                ServiceBindV {
                    name: parts[1],
                    service_group: g,
                    service_name: Some(parts[0]),
                },
            ),
        }
    } else {
        Err(SpecErrV::InvalidBinding(s))
    }
}

/// Renders a binding back to its textual form: composite-scoped bindings as
/// `service_name:name:service_group`, standalone ones as
/// `name:service_group`.
pub open spec fn format_bind(v: ServiceBindV) -> Seq<char> {
    (match v.service_name {
        None => Seq::<char>::empty(),
        Some(n) => n + seq![':'],
    }) + v.name + seq![':'] + format_service_group(v.service_group)
}

/// Formatting is the exact inverse of parsing: whatever text parses as a
/// binding renders back to that very text.
pub proof fn lemma_bind_format_parse(s: Seq<char>)
    requires
        parse_bind(s) is Ok,
    ensures
        format_bind(parse_bind(s)->Ok_0) == s,
{
    let v = parse_bind(s)->Ok_0;
    let parts = split_on(s, ':');
    lemma_join_split(s, ':');
    if parts.len() == 2 {
        assert(join_with(parts, ':') == parts[0] + seq![':'] + join_with(
            parts.drop_first(),
            ':',
        ));
        assert(parts.drop_first().len() == 1);
        assert(join_with(parts.drop_first(), ':') == parts.drop_first()[0]);
        assert(parts.drop_first()[0] == parts[1]);
        lemma_sg_format_parse(parts[1]);
        assert(format_bind(v) =~= parts[0] + seq![':'] + parts[1]);
        assert(format_bind(v) == s);
    } else {
        let d1 = parts.drop_first();
        assert(join_with(parts, ':') == parts[0] + seq![':'] + join_with(d1, ':'));
        assert(d1.len() == 2);
        assert(join_with(d1, ':') == d1[0] + seq![':'] + join_with(d1.drop_first(), ':'));
        assert(d1.drop_first().len() == 1);
        assert(join_with(d1.drop_first(), ':') == d1.drop_first()[0]);
        assert(d1[0] == parts[1]);
        assert(d1.drop_first()[0] == parts[2]);
        lemma_sg_format_parse(parts[2]);
        assert(format_bind(v) =~= (parts[0] + seq![':']) + parts[1] + seq![':'] + parts[2]);
        assert(format_bind(v) =~= parts[0] + seq![':'] + (parts[1] + seq![':'] + parts[2]));
        assert(format_bind(v) == s);
    }
}

impl ServiceBind {
    /// Whether this binding is scoped to one named member of a composite.
    pub fn is_composite(&self) -> (r: bool)
        ensures
            r == (self@.service_name is Some),
    {
        self.service_name.is_some()
    }

    /// Parses a binding string.
    pub fn from_str(bind_str: &str) -> (r: Result<ServiceBind, SpecError>)
        ensures
            match r {
                Ok(b) => parse_bind(bind_str@) == Ok::<ServiceBindV, SpecErrV>(b@),
                Err(e) => parse_bind(bind_str@) == Err::<ServiceBindV, SpecErrV>(e@),
            },
    {
        let parts = split_string(bind_str, ':');
        proof {
            assert(views_of(parts@) == split_on(bind_str@, ':'));
        }
        if parts.len() == 2 {
            match ServiceGroup::parse(parts[1].as_str()) {
                Ok(sg) => Ok(
                    ServiceBind {
                        name: parts[0].clone(),
                        service_group: sg,
                        service_name: None,
                    },
                ),
                Err(e) => Err(e),
            }
        } else if parts.len() == 3 {
            match ServiceGroup::parse(parts[2].as_str()) {
                Ok(sg) => Ok(
                    ServiceBind {
                        name: parts[1].clone(),
                        service_group: sg,
                        service_name: Some(parts[0].clone()),
                    },
                ),
                Err(e) => Err(e),
            }
        } else {
            Err(SpecError::InvalidBinding(bind_str.to_owned()))
        }
    }

    /// Renders the binding back to its textual form.
    pub fn to_string(&self) -> (r: String)
        ensures
            r@ == format_bind(self@),
    {
        let mut out = String::new();
        match self.service_name {
            None => {},
            Some(ref n) => {
                out.append(n.as_str());
                out.append(":");
            },
        }
        out.append(self.name.as_str());
        out.append(":");
        let sg_text = self.service_group.to_text();
        out.append(sg_text.as_str());
        proof {
            reveal_strlit(":");
            assert(":"@ =~= seq![':']);
            assert(out@ =~= format_bind(self@));
        }
        out
    }

    /// A copy whose view is the same.
    pub fn dup(&self) -> (r: ServiceBind)
        ensures
            r@ == self@,
    {
        ServiceBind {
            name: self.name.clone(),
            service_group: self.service_group.dup(),
            service_name: match self.service_name {
                Some(ref n) => Some(n.clone()),
                None => None,
            },
        }
    }
}

} // verus!
