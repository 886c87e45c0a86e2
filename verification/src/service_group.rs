use vstd::prelude::*;

use crate::error::{SpecErrV, SpecError};
use crate::strutil::{
    contains_char, find_first, join_with, lemma_join_split, lemma_split_on_len,
    lemma_split_on_prefix, lemma_split_on_whole, split_on, split_string, views_of,
};

verus! {

/// An application/environment pair, written `app.env`.
#[derive(Debug, Clone, PartialEq, Eq, Hash)]
pub struct ApplicationEnvironment {
    pub application: String,
    pub environment: String,
}

/// The mathematical image of an `ApplicationEnvironment`.
pub struct AppEnvV {
    pub application: Seq<char>,
    pub environment: Seq<char>,
}

impl View for ApplicationEnvironment {
    type V = AppEnvV;

    open spec fn view(&self) -> AppEnvV {
        AppEnvV { application: self.application@, environment: self.environment@ }
    }
}

/// The addressable unit a binding resolves against, written
/// `app.env#service.group@organization` with the `app.env#` and
/// `@organization` parts optional.
#[derive(Debug, Clone, PartialEq, Eq, Hash)]
pub struct ServiceGroup {
    pub application_environment: Option<ApplicationEnvironment>,
    pub service: String,
    pub group: String,
    pub organization: Option<String>,
}

/// The mathematical image of a `ServiceGroup`.
pub struct ServiceGroupV {
    pub app_env: Option<AppEnvV>,
    pub service: Seq<char>,
    pub group: Seq<char>,
    pub organization: Option<Seq<char>>,
}

impl View for ServiceGroup {
    type V = ServiceGroupV;

    open spec fn view(&self) -> ServiceGroupV {
        ServiceGroupV {
            app_env: match self.application_environment {
                Some(ref ae) => Some(ae@),
                None => None,
            },
            service: self.service@,
            group: self.group@,
            organization: match self.organization {
                Some(ref o) => Some(o@),
                None => None,
            },
        }
    }
}

/// The `app.env` grammar: exactly one dot, both sides non-empty, and neither
/// side may hold `#` or `@`.
pub open spec fn parse_app_env(s: Seq<char>) -> Option<AppEnvV> {
    let parts = split_on(s, '.');
    if parts.len() == 2 && parts[0].len() > 0 && parts[1].len() > 0 && !parts[0].contains('#')
        && !parts[1].contains('#') && !parts[0].contains('@') && !parts[1].contains('@') {
        Some(AppEnvV { application: parts[0], environment: parts[1] })
    } else {
        None
    }
}

pub open spec fn format_app_env(v: AppEnvV) -> Seq<char> {
    v.application + seq!['.'] + v.environment
}

/// The service group grammar. The organization is everything after the first
/// `@` and may hold any character; the part before it holds an optional
/// `app.env#` prefix and then `service.group`, each component non-empty.
pub open spec fn parse_service_group(s: Seq<char>) -> Option<ServiceGroupV> {
    let at = split_on(s, '@');
    let head = at[0];
    if at.len() >= 2 && join_with(at.drop_first(), '@').len() == 0 {
        None
    } else {
        let org = if at.len() == 1 {
            Option::<Seq<char>>::None
        } else {
            Some(join_with(at.drop_first(), '@'))
        };
        let hp = split_on(head, '#');
        if hp.len() > 2 {
            None
        } else {
            let svc = if hp.len() == 2 {
                hp[1]
            } else {
                hp[0]
            };
            let sp = split_on(svc, '.');
            if sp.len() != 2 || sp[0].len() == 0 || sp[1].len() == 0 {
                None
            } else if hp.len() == 2 {
                match parse_app_env(hp[0]) {
                    None => None,
                    Some(ae) => Some(
                        ServiceGroupV {
                            app_env: Some(ae),
                            service: sp[0],
                            group: sp[1],
                            organization: org,
                        },
                    ),
                }
            } else {
                Some(
                    ServiceGroupV {
                        app_env: None,
                        service: sp[0],
                        group: sp[1],
                        organization: org,
                    },
                )
            }
        }
    }
}

pub open spec fn format_service_group(v: ServiceGroupV) -> Seq<char> {
    (match v.app_env {
        None => Seq::<char>::empty(),
        Some(ae) => format_app_env(ae) + seq!['#'],
    }) + v.service + seq!['.'] + v.group + (match v.organization {
        None => Seq::<char>::empty(),
        Some(o) => seq!['@'] + o,
    })
}

/// Formatting is the exact inverse of parsing for `app.env`.
pub proof fn lemma_app_env_format_parse(s: Seq<char>)
    requires
        parse_app_env(s) is Some,
    ensures
        format_app_env(parse_app_env(s)->Some_0) == s,
{
    let parts = split_on(s, '.');
    lemma_join_split(s, '.');
    assert(join_with(parts, '.') == parts[0] + seq!['.'] + join_with(parts.drop_first(), '.'));
    assert(parts.drop_first().len() == 1);
    assert(join_with(parts.drop_first(), '.') == parts.drop_first()[0]);
    assert(parts.drop_first()[0] == parts[1]);
    assert(format_app_env(parse_app_env(s)->Some_0) == s);
}

/// Formatting is the exact inverse of parsing for service groups.
pub proof fn lemma_sg_format_parse(s: Seq<char>)
    requires
        parse_service_group(s) is Some,
    ensures
        format_service_group(parse_service_group(s)->Some_0) == s,
{
    let v = parse_service_group(s)->Some_0;
    let at = split_on(s, '@');
    let head = at[0];
    lemma_join_split(s, '@');
    lemma_split_on_len(s, '@');
    if at.len() == 1 {
        assert(join_with(at, '@') == head);
        assert(s == head);
    } else {
        assert(join_with(at, '@') == head + seq!['@'] + join_with(at.drop_first(), '@'));
        assert(s == head + seq!['@'] + join_with(at.drop_first(), '@'));
    }
    let hp = split_on(head, '#');
    lemma_join_split(head, '#');
    lemma_split_on_len(head, '#');
    let svc = if hp.len() == 2 {
        hp[1]
    } else {
        hp[0]
    };
    if hp.len() == 1 {
        assert(join_with(hp, '#') == hp[0]);
        assert(head == svc);
    } else {
        assert(join_with(hp, '#') == hp[0] + seq!['#'] + join_with(hp.drop_first(), '#'));
        assert(hp.drop_first().len() == 1);
        assert(join_with(hp.drop_first(), '#') == hp.drop_first()[0]);
        assert(hp.drop_first()[0] == hp[1]);
        assert(head == hp[0] + seq!['#'] + svc);
    }
    let sp = split_on(svc, '.');
    lemma_join_split(svc, '.');
    assert(join_with(sp, '.') == sp[0] + seq!['.'] + join_with(sp.drop_first(), '.'));
    assert(sp.drop_first().len() == 1);
    assert(join_with(sp.drop_first(), '.') == sp.drop_first()[0]);
    assert(sp.drop_first()[0] == sp[1]);
    assert(svc == sp[0] + seq!['.'] + sp[1]);
    if hp.len() == 2 {
        lemma_app_env_format_parse(hp[0]);
        assert(format_app_env(v.app_env->Some_0) == hp[0]);
    }
    if at.len() == 1 {
        if hp.len() == 1 {
            assert(format_service_group(v) =~= svc);
        } else {
            assert(format_service_group(v) =~= (hp[0] + seq!['#']) + (sp[0] + seq!['.'] + sp[1]));
            assert(format_service_group(v) =~= hp[0] + seq!['#'] + svc);
        }
        assert(format_service_group(v) == s);
    } else {
        let org = join_with(at.drop_first(), '@');
        if hp.len() == 1 {
            assert(format_service_group(v) =~= svc + (seq!['@'] + org));
            assert(format_service_group(v) =~= head + seq!['@'] + org);
        } else {
            assert(format_service_group(v) =~= (hp[0] + seq!['#']) + (sp[0] + seq!['.'] + sp[1])
                + (seq!['@'] + org));
            assert(format_service_group(v) =~= (hp[0] + seq!['#'] + svc) + seq!['@'] + org);
            assert(format_service_group(v) =~= head + seq!['@'] + org);
        }
        assert(format_service_group(v) == s);
    }
}

impl ApplicationEnvironment {
    /// Parses the `app.env` form; `None` when the text violates the grammar.
    pub fn parse(s: &str) -> (r: Option<ApplicationEnvironment>)
        ensures
            match r {
                Some(ae) => parse_app_env(s@) == Some(ae@),
                None => parse_app_env(s@) is None,
            },
    {
        let parts = split_string(s, '.');
        proof {
            assert(views_of(parts@) == split_on(s@, '.'));
        }
        if parts.len() != 2 {
            return None;
        }
        let app = &parts[0];
        let env = &parts[1];
        if app.as_str().is_empty() || env.as_str().is_empty() {
            return None;
        }
        if contains_char(app.as_str(), '#') || contains_char(env.as_str(), '#') || contains_char(
            app.as_str(),
            '@',
        ) || contains_char(env.as_str(), '@') {
            return None;
        }
        let r = ApplicationEnvironment { application: app.clone(), environment: env.clone() };
        proof {
            assert(r@.application == views_of(parts@)[0]);
            assert(r@.environment == views_of(parts@)[1]);
        }
        Some(r)
    }

    /// Renders the pair back to its `app.env` form.
    pub fn to_text(&self) -> (r: String)
        ensures
            r@ == format_app_env(self@),
    {
        let mut out = self.application.clone();
        out.append(".");
        out.append(self.environment.as_str());
        proof {
            reveal_strlit(".");
            assert("."@ =~= seq!['.']);
            assert(out@ =~= format_app_env(self@));
        }
        out
    }

    /// A copy whose view is the same.
    pub fn dup(&self) -> (r: ApplicationEnvironment)
        ensures
            r@ == self@,
    {
        ApplicationEnvironment {
            application: self.application.clone(),
            environment: self.environment.clone(),
        }
    }
}

impl ServiceGroup {
    /// Parses the service group grammar; the error carries the whole text.
    pub fn parse(s: &str) -> (r: Result<ServiceGroup, SpecError>)
        ensures
            match r {
                Ok(sg) => parse_service_group(s@) == Some(sg@),
                Err(e) => parse_service_group(s@) is None && e@ == SpecErrV::InvalidServiceGroup(
                    s@,
                ),
            },
    {
        let n = s.unicode_len();
        let ghost at = split_on(s@, '@');
        let mut head: String = String::new();
        let mut org: Option<String> = None;
        match find_first(s, '@') {
            None => {
                proof {
                    lemma_split_on_whole(s@, '@');
                }
                head = s.to_owned();
                org = None;
            },
            Some(i) => {
                let o = s.substring_char(i + 1, n).to_owned();
                proof {
                    let h = s@.subrange(0, i as int);
                    let t = s@.subrange(i + 1, n as int);
                    assert(s@ =~= h + seq!['@'] + t);
                    lemma_split_on_prefix(h, t, '@');
                    lemma_split_on_len(t, '@');
                    assert(at.drop_first() =~= split_on(t, '@'));
                    lemma_join_split(t, '@');
                }
                if o.as_str().is_empty() {
                    return Err(SpecError::InvalidServiceGroup(s.to_owned()));
                }
                head = s.substring_char(0, i).to_owned();
                org = Some(o);
            },
        }
        let hp = split_string(head.as_str(), '#');
        proof {
            assert(views_of(hp@) == split_on(head@, '#'));
        }
        if hp.len() > 2 {
            return Err(SpecError::InvalidServiceGroup(s.to_owned()));
        }
        let svc: &String = if hp.len() == 2 {
            &hp[1]
        } else {
            &hp[0]
        };
        let sp = split_string(svc.as_str(), '.');
        proof {
            assert(views_of(sp@) == split_on(svc@, '.'));
        }
        if sp.len() != 2 {
            return Err(SpecError::InvalidServiceGroup(s.to_owned()));
        }
        if sp[0].as_str().is_empty() || sp[1].as_str().is_empty() {
            return Err(SpecError::InvalidServiceGroup(s.to_owned()));
        }
        let app_env: Option<ApplicationEnvironment> = if hp.len() == 2 {
            match ApplicationEnvironment::parse(hp[0].as_str()) {
                Some(ae) => Some(ae),
                None => {
                    return Err(SpecError::InvalidServiceGroup(s.to_owned()));
                },
            }
        } else {
            None
        };
        let r = ServiceGroup {
            application_environment: app_env,
            service: sp[0].clone(),
            group: sp[1].clone(),
            organization: org,
        };
        proof {
            assert(r@.service == views_of(sp@)[0]);
            assert(r@.group == views_of(sp@)[1]);
        }
        Ok(r)
    }

    /// Renders the group back to its textual form.
    pub fn to_text(&self) -> (r: String)
        ensures
            r@ == format_service_group(self@),
    {
        let mut out = String::new();
        match self.application_environment {
            None => {},
            Some(ref ae) => {
                let ae_text = ae.to_text();
                out.append(ae_text.as_str());
                out.append("#");
            },
        }
        out.append(self.service.as_str());
        out.append(".");
        out.append(self.group.as_str());
        match self.organization {
            None => {},
            Some(ref o) => {
                out.append("@");
                out.append(o.as_str());
            },
        }
        proof {
            reveal_strlit("#");
            reveal_strlit(".");
            reveal_strlit("@");
            assert("#"@ =~= seq!['#']);
            assert("."@ =~= seq!['.']);
            assert("@"@ =~= seq!['@']);
            assert(out@ =~= format_service_group(self@));
        }
        out
    }

    /// A copy whose view is the same.
    pub fn dup(&self) -> (r: ServiceGroup)
        ensures
            r@ == self@,
    {
        ServiceGroup {
            application_environment: match self.application_environment {
                Some(ref ae) => Some(ae.dup()),
                None => None,
            },
            service: self.service.clone(),
            group: self.group.clone(),
            organization: match self.organization {
                Some(ref o) => Some(o.clone()),
                None => None,
            },
        }
    }
}

} // verus!
