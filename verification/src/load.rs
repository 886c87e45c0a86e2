use vstd::prelude::*;

use crate::bind::{ServiceBind, ServiceBindV};
use crate::choices::{BindingMode, Topology, UpdateStrategy};
use crate::ident::{PackageIdent, PackageIdentV};
use crate::service_group::{ApplicationEnvironment, AppEnvV, ServiceGroup, ServiceGroupV};
use crate::spec::{default_spec, ServiceSpec, ServiceSpecV};
use crate::strutil::str_eq;

verus! {

/// The views of a list of bindings.
pub open spec fn bind_views(binds: Seq<ServiceBind>) -> Seq<ServiceBindV> {
    binds.map_values(|b: ServiceBind| b@)
}

/// One build-time declaration: this bind name is satisfied by that service.
#[derive(Debug, Clone, PartialEq, Eq)]
pub struct BindMapping {
    pub bind_name: String,
    pub satisfying_service: PackageIdent,
}

/// The mathematical image of a `BindMapping`.
pub struct BindMappingV {
    pub bind_name: Seq<char>,
    pub satisfying_service: PackageIdentV,
}

impl View for BindMapping {
    type V = BindMappingV;

    open spec fn view(&self) -> BindMappingV {
        BindMappingV { bind_name: self.bind_name@, satisfying_service: self.satisfying_service@ }
    }
}

/// The table of bind mappings a composite declares, keyed by package
/// identity. Resolving one member consumes (removes) that member's entry,
/// so one table serves one composite load and is not reused across loads.
#[derive(Debug, Clone, PartialEq, Eq)]
pub struct BindMap {
    entries: Vec<BindRow>,
}

/// One row of a `BindMap`.
#[derive(Debug, Clone, PartialEq, Eq)]
struct BindRow {
    ident: PackageIdent,
    mappings: Vec<BindMapping>,
}

impl View for BindRow {
    type V = (PackageIdentV, Seq<BindMappingV>);

    closed spec fn view(&self) -> (PackageIdentV, Seq<BindMappingV>) {
        (self.ident@, self.mappings@.map_values(|m: BindMapping| m@))
    }
}

impl View for BindMap {
    type V = Seq<(PackageIdentV, Seq<BindMappingV>)>;

    closed spec fn view(&self) -> Seq<(PackageIdentV, Seq<BindMappingV>)> {
        self.entries@.map_values(|e: BindRow| e@)
    }
}

/// The first entry under the key, if any.
pub open spec fn assoc_lookup(
    entries: Seq<(PackageIdentV, Seq<BindMappingV>)>,
    key: PackageIdentV,
) -> Option<Seq<BindMappingV>>
    decreases entries.len(),
{
    if entries.len() == 0 {
        None
    } else if entries.first().0 == key {
        Some(entries.first().1)
    } else {
        assoc_lookup(entries.drop_first(), key)
    }
}

/// The entries with the first entry under the key taken out, if any.
pub open spec fn assoc_remove(
    entries: Seq<(PackageIdentV, Seq<BindMappingV>)>,
    key: PackageIdentV,
) -> Seq<(PackageIdentV, Seq<BindMappingV>)>
    decreases entries.len(),
{
    if entries.len() == 0 {
        Seq::<(PackageIdentV, Seq<BindMappingV>)>::empty()
    } else if entries.first().0 == key {
        entries.drop_first()
    } else {
        seq![entries.first()] + assoc_remove(entries.drop_first(), key)
    }
}

proof fn lemma_assoc_at(entries: Seq<(PackageIdentV, Seq<BindMappingV>)>, key: PackageIdentV, i: int)
    requires
        0 <= i < entries.len(),
        entries[i].0 == key,
        forall|j: int| 0 <= j < i ==> (#[trigger] entries[j]).0 != key,
    ensures
        assoc_lookup(entries, key) == Some(entries[i].1),
        assoc_remove(entries, key) == entries.take(i) + entries.skip(i + 1),
    decreases i,
{
    if i == 0 {
        assert(entries.take(0) + entries.skip(1) =~= entries.drop_first());
    } else {
        let rest = entries.drop_first();
        assert(rest[i - 1].0 == key);
        assert forall|j: int| 0 <= j < i - 1 implies (#[trigger] rest[j]).0 != key by {
            assert(rest[j] == entries[j + 1]);
        }
        lemma_assoc_at(rest, key, i - 1);
        assert(rest[i - 1] == entries[i]);
        assert(seq![entries.first()] + (rest.take(i - 1) + rest.skip(i)) =~= entries.take(i)
            + entries.skip(i + 1));
    }
}

proof fn lemma_assoc_absent(entries: Seq<(PackageIdentV, Seq<BindMappingV>)>, key: PackageIdentV)
    requires
        forall|j: int| 0 <= j < entries.len() ==> (#[trigger] entries[j]).0 != key,
    ensures
        assoc_lookup(entries, key) is None,
        assoc_remove(entries, key) == entries,
    decreases entries.len(),
{
    if entries.len() == 0 {
        assert(assoc_remove(entries, key) =~= entries);
    } else {
        let rest = entries.drop_first();
        assert forall|j: int| 0 <= j < rest.len() implies (#[trigger] rest[j]).0 != key by {
            assert(rest[j] == entries[j + 1]);
        }
        lemma_assoc_absent(rest, key);
        assert(seq![entries.first()] + rest =~= entries);
    }
}

impl BindMap {
    /// An empty table.
    pub fn new() -> (r: BindMap)
        ensures
            r@ == Seq::<(PackageIdentV, Seq<BindMappingV>)>::empty(),
    {
        let r = BindMap { entries: Vec::new() };
        proof {
            assert(r@ =~= Seq::<(PackageIdentV, Seq<BindMappingV>)>::empty());
        }
        r
    }

    /// How many identities the table holds entries for.
    pub fn len(&self) -> (r: usize)
        ensures
            r == self@.len(),
    {
        self.entries.len()
    }

    /// Adds the mappings declared for one identity, which must not already
    /// have an entry.
    pub fn insert(&mut self, ident: PackageIdent, mappings: Vec<BindMapping>)
        requires
            assoc_lookup(old(self)@, ident@) is None,
        ensures
            final(self)@ == old(self)@.push(
                (ident@, mappings@.map_values(|m: BindMapping| m@)),
            ),
    {
        let ghost prior = self@;
        let ghost key = ident@;
        let ghost mapped = mappings@.map_values(|m: BindMapping| m@);
        self.entries.push(BindRow { ident, mappings });
        proof {
            assert(self@ =~= prior.push((key, mapped)));
        }
    }

    /// Takes the entry for the identity out, handing its mappings back.
    pub fn remove(&mut self, ident: &PackageIdent) -> (r: Option<Vec<BindMapping>>)
        ensures
            final(self)@ == assoc_remove(old(self)@, ident@),
            match r {
                Some(ms) => assoc_lookup(old(self)@, ident@) == Some(
                    ms@.map_values(|m: BindMapping| m@),
                ),
                None => assoc_lookup(old(self)@, ident@) is None,
            },
    {
        let mut i: usize = 0;
        while i < self.entries.len()
            invariant
                0 <= i <= self.entries@.len(),
                self.entries@ == old(self).entries@,
                forall|j: int| 0 <= j < i ==> (#[trigger] self@[j]).0 != ident@,
                self@ == old(self)@,
            decreases self.entries@.len() - i,
        {
            if self.entries[i].ident.same_as(ident) {
                let ghost pre = self@;
                proof {
                    assert(pre[i as int] == self.entries@[i as int]@);
                    lemma_assoc_at(pre, ident@, i as int);
                }
                let entry = self.entries.remove(i);
                proof {
                    assert(self@ =~= pre.take(i as int) + pre.skip(i + 1));
                    assert(pre[i as int].1 == entry.mappings@.map_values(|m: BindMapping| m@));
                }
                return Some(entry.mappings);
            }
            proof {
                assert(self@[i as int] == self.entries@[i as int]@);
            }
            i = i + 1;
        }
        proof {
            lemma_assoc_absent(self@, ident@);
        }
        None
    }
}

/// Lays a binding into the accumulator: a binding of the same name is
/// replaced in place, a new name is appended.
pub open spec fn upsert_bind(acc: Seq<ServiceBindV>, b: ServiceBindV) -> Seq<ServiceBindV>
    decreases acc.len(),
{
    if acc.len() == 0 {
        seq![b]
    } else if acc.first().name == b.name {
        seq![b] + acc.drop_first()
    } else {
        seq![acc.first()] + upsert_bind(acc.drop_first(), b)
    }
}

proof fn lemma_upsert_at(acc: Seq<ServiceBindV>, b: ServiceBindV, i: int)
    requires
        0 <= i < acc.len(),
        acc[i].name == b.name,
        forall|j: int| 0 <= j < i ==> (#[trigger] acc[j]).name != b.name,
    ensures
        upsert_bind(acc, b) == acc.update(i, b),
    decreases i,
{
    if i == 0 {
        assert(seq![b] + acc.drop_first() =~= acc.update(0, b));
    } else {
        let rest = acc.drop_first();
        assert(rest[i - 1].name == b.name);
        assert forall|j: int| 0 <= j < i - 1 implies (#[trigger] rest[j]).name != b.name by {
            assert(rest[j] == acc[j + 1]);
        }
        lemma_upsert_at(rest, b, i - 1);
        assert(seq![acc.first()] + rest.update(i - 1, b) =~= acc.update(i, b));
    }
}

proof fn lemma_upsert_absent(acc: Seq<ServiceBindV>, b: ServiceBindV)
    requires
        forall|j: int| 0 <= j < acc.len() ==> (#[trigger] acc[j]).name != b.name,
    ensures
        upsert_bind(acc, b) == acc.push(b),
    decreases acc.len(),
{
    if acc.len() == 0 {
        assert(upsert_bind(acc, b) =~= acc.push(b));
    } else {
        let rest = acc.drop_first();
        assert forall|j: int| 0 <= j < rest.len() implies (#[trigger] rest[j]).name
            != b.name by {
            assert(rest[j] == acc[j + 1]);
        }
        lemma_upsert_absent(rest, b);
        assert(seq![acc.first()] + rest.push(b) =~= acc.push(b));
    }
}

/// Lays a binding into the accumulator, by name.
fn upsert_exec(acc: &mut Vec<ServiceBind>, b: ServiceBind)
    ensures
        bind_views(final(acc)@) == upsert_bind(bind_views(old(acc)@), b@),
{
    let mut i: usize = 0;
    while i < acc.len()
        invariant
            0 <= i <= acc@.len(),
            acc@ == old(acc)@,
            forall|j: int| 0 <= j < i ==> (#[trigger] acc@[j])@.name != b@.name,
        decreases acc@.len() - i,
    {
        if str_eq(acc[i].name.as_str(), b.name.as_str()) {
            let ghost pre = bind_views(acc@);
            proof {
                assert(pre[i as int] == acc@[i as int]@);
                assert forall|j: int| 0 <= j < i implies (#[trigger] pre[j]).name
                    != b@.name by {
                    assert(pre[j] == acc@[j]@);
                }
                lemma_upsert_at(pre, b@, i as int);
            }
            acc.remove(i);
            acc.insert(i, b);
            proof {
                assert(bind_views(acc@) =~= pre.update(i as int, b@));
            }
            return ;
        }
        proof {
            assert(bind_views(acc@)[i as int] == acc@[i as int]@);
        }
        i = i + 1;
    }
    let ghost pre = bind_views(acc@);
    proof {
        assert forall|j: int| 0 <= j < pre.len() implies (#[trigger] pre[j]).name != b@.name by {
            assert(pre[j] == acc@[j]@);
        }
        lemma_upsert_absent(pre, b@);
    }
    acc.push(b);
    proof {
        assert(bind_views(acc@) =~= pre.push(b@));
    }
}

/// The bindings a member's declared mappings lay into the accumulator, in
/// source order: each mapping becomes a composite-scoped binding whose group
/// is built from the member's application/environment, the satisfying
/// service's name, and the member's group, with no organization.
pub open spec fn binds_from_mappings(
    mappings: Seq<BindMappingV>,
    app_env: Option<AppEnvV>,
    group: Seq<char>,
    acc: Seq<ServiceBindV>,
) -> Seq<ServiceBindV>
    decreases mappings.len(),
{
    if mappings.len() == 0 {
        acc
    } else {
        let m0 = mappings.first();
        let b = ServiceBindV {
            name: m0.bind_name,
            service_group: ServiceGroupV {
                app_env,
                service: m0.satisfying_service.name,
                group,
                organization: None,
            },
            service_name: Some(m0.bind_name),
        };
        binds_from_mappings(mappings.drop_first(), app_env, group, upsert_bind(acc, b))
    }
}

/// The overrides laid on top, in order: only one whose service name equals
/// the member's package name touches the accumulator, and it wins over
/// whatever the mappings put there under the same bind name.
pub open spec fn apply_overrides(
    acc: Seq<ServiceBindV>,
    overrides: Seq<ServiceBindV>,
    member_name: Seq<char>,
) -> Seq<ServiceBindV>
    decreases overrides.len(),
{
    if overrides.len() == 0 {
        acc
    } else {
        let o = overrides.first();
        let acc2 = if o.service_name == Some(member_name) {
            upsert_bind(acc, o)
        } else {
            acc
        };
        apply_overrides(acc2, overrides.drop_first(), member_name)
    }
}

/// The final binding set of one composite member: the member's declared
/// mappings first, the matching overrides layered on top.
pub open spec fn resolved_binds(
    spec: ServiceSpecV,
    mappings: Option<Seq<BindMappingV>>,
    overrides: Seq<ServiceBindV>,
) -> Seq<ServiceBindV> {
    let from_map = match mappings {
        None => Seq::<ServiceBindV>::empty(),
        Some(ms) => binds_from_mappings(
            ms,
            spec.application_environment,
            spec.group,
            Seq::<ServiceBindV>::empty(),
        ),
    };
    apply_overrides(from_map, overrides, spec.ident.name)
}

/// Generates the bindings of one composite member from the composite's
/// declared mappings and the caller's overrides, and sets them in the spec;
/// whatever bindings the spec held before are discarded. The member's entry
/// is consumed out of the table.
pub fn set_composite_binds(spec: &mut ServiceSpec, bind_map: &mut BindMap, binds: &Vec<ServiceBind>)
    ensures
        final(spec)@ == (ServiceSpecV {
            binds: resolved_binds(
                old(spec)@,
                assoc_lookup(old(bind_map)@, old(spec)@.ident),
                bind_views(binds@),
            ),
            ..old(spec)@
        }),
        final(bind_map)@ == assoc_remove(old(bind_map)@, old(spec)@.ident),
{
    let ghost spec0 = spec@;
    let ghost looked_up = assoc_lookup(bind_map@, spec@.ident);
    let mapped = bind_map.remove(&spec.ident);
    let mut acc: Vec<ServiceBind> = Vec::new();
    match mapped {
        None => {
            proof {
                assert(bind_views(acc@) =~= Seq::<ServiceBindV>::empty());
            }
        },
        Some(mappings) => {
            let ghost mviews = mappings@.map_values(|m: BindMapping| m@);
            let mut i: usize = 0;
            proof {
                assert(mviews.skip(0) =~= mviews);
                assert(bind_views(acc@) =~= Seq::<ServiceBindV>::empty());
            }
            while i < mappings.len()
                invariant
                    0 <= i <= mappings@.len(),
                    mviews == mappings@.map_values(|m: BindMapping| m@),
                    spec@ == spec0,
                    binds_from_mappings(
                        mviews.skip(i as int),
                        spec0.application_environment,
                        spec0.group,
                        bind_views(acc@),
                    ) == binds_from_mappings(
                        mviews,
                        spec0.application_environment,
                        spec0.group,
                        Seq::<ServiceBindV>::empty(),
                    ),
                decreases mappings@.len() - i,
            {
                let m = &mappings[i];
                let sg = ServiceGroup {
                    application_environment: match spec.application_environment {
                        Some(ref ae) => Some(ae.dup()),
                        None => None,
                    },
                    service: m.satisfying_service.name.clone(),
                    group: spec.group.clone(),
                    organization: None,
                };
                let b = ServiceBind {
                    name: m.bind_name.clone(),
                    service_group: sg,
                    service_name: Some(m.bind_name.clone()),
                };
                proof {
                    assert(mviews[i as int] == mappings@[i as int]@);
                    assert(mviews.skip(i as int).first() == mviews[i as int]);
                    assert(mviews.skip(i as int).drop_first() =~= mviews.skip(i + 1));
                    assert(b@.service_group.app_env == spec0.application_environment);
                    assert(b@.service_group.group == spec0.group);
                    assert(b@.name == mviews[i as int].bind_name);
                    assert(b@.service_group.service == mviews[i as int].satisfying_service.name);
                }
                upsert_exec(&mut acc, b);
                i = i + 1;
            }
            proof {
                assert(mviews.skip(mappings@.len() as int) =~= Seq::<BindMappingV>::empty());
            }
        },
    }
    // lay the caller's overrides for this member on top
    let ghost from_map = bind_views(acc@);
    let ghost ovs = bind_views(binds@);
    let mut k: usize = 0;
    proof {
        assert(ovs.skip(0) =~= ovs);
    }
    while k < binds.len()
        invariant
            0 <= k <= binds@.len(),
            ovs == bind_views(binds@),
            spec@ == spec0,
            apply_overrides(bind_views(acc@), ovs.skip(k as int), spec0.ident.name)
                == apply_overrides(from_map, ovs, spec0.ident.name),
        decreases binds@.len() - k,
    {
        proof {
            assert(ovs[k as int] == binds@[k as int]@);
            assert(ovs.skip(k as int).first() == ovs[k as int]);
            assert(ovs.skip(k as int).drop_first() =~= ovs.skip(k + 1));
        }
        let is_for_member = match binds[k].service_name {
            Some(ref n) => str_eq(n.as_str(), spec.ident.name.as_str()),
            None => false,
        };
        if is_for_member {
            let b = binds[k].dup();
            upsert_exec(&mut acc, b);
        }
        k = k + 1;
    }
    proof {
        assert(ovs.skip(binds@.len() as int) =~= Seq::<ServiceBindV>::empty());
    }
    spec.binds = acc;
    proof {
        assert(spec@ == (ServiceSpecV {
            binds: resolved_binds(spec0, looked_up, bind_views(binds@)),
            ..spec0
        }));
    }
}


/// The views of a list of identities.
pub open spec fn ident_views(idents: Seq<PackageIdent>) -> Seq<PackageIdentV> {
    idents.map_values(|i: PackageIdent| i@)
}

/// The views of a list of specs.
pub open spec fn spec_views(specs: Seq<ServiceSpec>) -> Seq<ServiceSpecV> {
    specs.map_values(|s: ServiceSpec| s@)
}

/// The composite-scoped bindings of a list, in order.
pub open spec fn composite_part(bs: Seq<ServiceBindV>) -> Seq<ServiceBindV> {
    bs.filter(|b: ServiceBindV| b.service_name is Some)
}

/// The standalone bindings of a list, in order.
pub open spec fn standard_part(bs: Seq<ServiceBindV>) -> Seq<ServiceBindV> {
    bs.filter(|b: ServiceBindV| b.service_name is None)
}

/// A copy of a list of bindings whose views are the same.
pub fn dup_binds(binds: &Vec<ServiceBind>) -> (r: Vec<ServiceBind>)
    ensures
        bind_views(r@) == bind_views(binds@),
{
    let mut copy: Vec<ServiceBind> = Vec::new();
    let mut i: usize = 0;
    while i < binds.len()
        invariant
            0 <= i <= binds@.len(),
            copy@.len() == i,
            forall|j: int| 0 <= j < i ==> (#[trigger] copy@[j])@ == binds@[j]@,
        decreases binds@.len() - i,
    {
        copy.push(binds[i].dup());
        i = i + 1;
    }
    proof {
        assert(bind_views(copy@) =~= bind_views(binds@));
    }
    copy
}

/// Splits a list of bindings into its composite-scoped and standalone
/// parts, keeping order.
pub fn partition_binds(binds: &Vec<ServiceBind>) -> (r: (Vec<ServiceBind>, Vec<ServiceBind>))
    ensures
        bind_views(r.0@) == composite_part(bind_views(binds@)),
        bind_views(r.1@) == standard_part(bind_views(binds@)),
{
    let ghost all = bind_views(binds@);
    let mut composite: Vec<ServiceBind> = Vec::new();
    let mut standard: Vec<ServiceBind> = Vec::new();
    let mut i: usize = 0;
    proof {
        reveal_with_fuel(Seq::<ServiceBindV>::filter, 2);
        assert(all.take(0) =~= Seq::<ServiceBindV>::empty());
        assert(composite_part(all.take(0)) =~= bind_views(composite@));
        assert(standard_part(all.take(0)) =~= bind_views(standard@));
    }
    while i < binds.len()
        invariant
            0 <= i <= binds@.len(),
            all == bind_views(binds@),
            bind_views(composite@) == composite_part(all.take(i as int)),
            bind_views(standard@) == standard_part(all.take(i as int)),
        decreases binds@.len() - i,
    {
        proof {
            reveal_with_fuel(Seq::<ServiceBindV>::filter, 2);
            assert(all.take(i + 1).drop_last() =~= all.take(i as int));
            assert(all.take(i + 1).last() == all[i as int]);
            assert(all[i as int] == binds@[i as int]@);
        }
        let b = binds[i].dup();
        if b.service_name.is_some() {
            let ghost prior = bind_views(composite@);
            composite.push(b);
            proof {
                assert(bind_views(composite@) =~= prior.push(binds@[i as int]@));
            }
        } else {
            let ghost prior = bind_views(standard@);
            standard.push(b);
            proof {
                assert(bind_views(standard@) =~= prior.push(binds@[i as int]@));
            }
        }
        i = i + 1;
    }
    proof {
        assert(all.take(binds@.len() as int) =~= all);
    }
    (composite, standard)
}

impl ServiceSpec {
    /// A copy whose view is the same.
    pub fn dup(&self) -> (r: ServiceSpec)
        ensures
            r@ == self@,
    {
        ServiceSpec {
            ident: self.ident.dup(),
            group: self.group.clone(),
            application_environment: match self.application_environment {
                Some(ref ae) => Some(ae.dup()),
                None => None,
            },
            bldr_url: self.bldr_url.clone(),
            channel: self.channel.clone(),
            topology: self.topology,
            update_strategy: self.update_strategy,
            binds: dup_binds(&self.binds),
            binding_mode: self.binding_mode,
            config_from: match self.config_from {
                Some(ref p) => Some(p.clone()),
                None => None,
            },
            desired_state: self.desired_state,
            svc_encrypted_password: match self.svc_encrypted_password {
                Some(ref p) => Some(p.clone()),
                None => None,
            },
            composite: match self.composite {
                Some(ref c) => Some(c.clone()),
                None => None,
            },
        }
    }
}

/// An inbound load request: the identity to load, and for every other spec
/// field an optional value. A present field overwrites the spec's field; an
/// absent one leaves it untouched.
#[derive(Debug, Clone, PartialEq, Eq)]
pub struct SvcLoad {
    pub ident: PackageIdent,
    pub group: Option<String>,
    pub application_environment: Option<ApplicationEnvironment>,
    pub bldr_url: Option<String>,
    pub bldr_channel: Option<String>,
    pub topology: Option<Topology>,
    pub update_strategy: Option<UpdateStrategy>,
    pub binds: Option<Vec<ServiceBind>>,
    pub binding_mode: Option<BindingMode>,
    pub config_from: Option<String>,
    pub svc_encrypted_password: Option<String>,
}

/// The mathematical image of a `SvcLoad`.
pub struct SvcLoadV {
    pub ident: PackageIdentV,
    pub group: Option<Seq<char>>,
    pub application_environment: Option<AppEnvV>,
    pub bldr_url: Option<Seq<char>>,
    pub bldr_channel: Option<Seq<char>>,
    pub topology: Option<Topology>,
    pub update_strategy: Option<UpdateStrategy>,
    pub binds: Option<Seq<ServiceBindV>>,
    pub binding_mode: Option<BindingMode>,
    pub config_from: Option<Seq<char>>,
    pub svc_encrypted_password: Option<Seq<char>>,
}

impl View for SvcLoad {
    type V = SvcLoadV;

    open spec fn view(&self) -> SvcLoadV {
        SvcLoadV {
            ident: self.ident@,
            group: match self.group {
                Some(ref g) => Some(g@),
                None => None,
            },
            application_environment: match self.application_environment {
                Some(ref ae) => Some(ae@),
                None => None,
            },
            bldr_url: match self.bldr_url {
                Some(ref u) => Some(u@),
                None => None,
            },
            bldr_channel: match self.bldr_channel {
                Some(ref c) => Some(c@),
                None => None,
            },
            topology: self.topology,
            update_strategy: self.update_strategy,
            binds: match self.binds {
                Some(ref bs) => Some(bind_views(bs@)),
                None => None,
            },
            binding_mode: self.binding_mode,
            config_from: match self.config_from {
                Some(ref p) => Some(p@),
                None => None,
            },
            svc_encrypted_password: match self.svc_encrypted_password {
                Some(ref p) => Some(p@),
                None => None,
            },
        }
    }
}

/// What applying a load request to a spec gives: the identity always taken
/// from the request; every present optional field overwriting; the
/// request's bindings, when given, replacing the spec's with their
/// standalone part; the composite membership cleared; the desired state
/// untouched.
pub open spec fn into_spec_result(load: SvcLoadV, prior: ServiceSpecV) -> ServiceSpecV {
    ServiceSpecV {
        ident: load.ident,
        group: match load.group {
            None => prior.group,
            Some(g) => g,
        },
        application_environment: match load.application_environment {
            None => prior.application_environment,
            Some(ae) => Some(ae),
        },
        bldr_url: match load.bldr_url {
            None => prior.bldr_url,
            Some(u) => u,
        },
        channel: match load.bldr_channel {
            None => prior.channel,
            Some(c) => c,
        },
        topology: match load.topology {
            None => prior.topology,
            Some(t) => t,
        },
        update_strategy: match load.update_strategy {
            None => prior.update_strategy,
            Some(u) => u,
        },
        binds: match load.binds {
            None => prior.binds,
            Some(bs) => standard_part(bs),
        },
        binding_mode: match load.binding_mode {
            None => prior.binding_mode,
            Some(b) => b,
        },
        config_from: match load.config_from {
            None => prior.config_from,
            Some(p) => Some(p),
        },
        desired_state: prior.desired_state,
        svc_encrypted_password: match load.svc_encrypted_password {
            None => prior.svc_encrypted_password,
            Some(p) => Some(p),
        },
        composite: None,
    }
}

/// What the partial update of `update_composite` gives: only the fields a
/// request may set on a composite member; identity, bindings and the rest
/// stay.
pub open spec fn partial_update(load: SvcLoadV, prior: ServiceSpecV) -> ServiceSpecV {
    ServiceSpecV {
        group: match load.group {
            None => prior.group,
            Some(g) => g,
        },
        application_environment: match load.application_environment {
            None => prior.application_environment,
            Some(ae) => Some(ae),
        },
        bldr_url: match load.bldr_url {
            None => prior.bldr_url,
            Some(u) => u,
        },
        channel: match load.bldr_channel {
            None => prior.channel,
            Some(c) => c,
        },
        topology: match load.topology {
            None => prior.topology,
            Some(t) => t,
        },
        update_strategy: match load.update_strategy {
            None => prior.update_strategy,
            Some(u) => u,
        },
        ..prior
    }
}

/// The base spec all members of one composite load share: the request
/// applied to the default spec, the composite name set, and the fields that
/// have no per-member targeting (the encrypted password and the
/// development-only override directory) cleared.
pub open spec fn base_spec_of(load: SvcLoadV, composite_name: Seq<char>) -> ServiceSpecV {
    ServiceSpecV {
        composite: Some(composite_name),
        svc_encrypted_password: None,
        config_from: None,
        ..into_spec_result(load, default_spec())
    }
}

/// The request's composite-scoped bindings, when it gave any.
pub open spec fn overrides_of(load: SvcLoadV) -> Option<Seq<ServiceBindV>> {
    match load.binds {
        None => None,
        Some(bs) => Some(composite_part(bs)),
    }
}

/// The member-by-member expansion of a composite load: each member is the
/// base spec under its own identity; when the request gave bindings, each
/// member's bindings are resolved against the table — consuming its entry —
/// and the overrides. The result carries the member specs and what is left
/// of the table.
pub open spec fn expand_members(
    base: ServiceSpecV,
    services: Seq<PackageIdentV>,
    bm: Seq<(PackageIdentV, Seq<BindMappingV>)>,
    overrides: Option<Seq<ServiceBindV>>,
) -> (Seq<ServiceSpecV>, Seq<(PackageIdentV, Seq<BindMappingV>)>)
    decreases services.len(),
{
    if services.len() == 0 {
        (Seq::<ServiceSpecV>::empty(), bm)
    } else {
        let member = ServiceSpecV { ident: services.first(), ..base };
        let step = match overrides {
            None => (member, bm),
            Some(ovs) => (
                ServiceSpecV {
                    binds: resolved_binds(member, assoc_lookup(bm, services.first()), ovs),
                    ..member
                },
                assoc_remove(bm, services.first()),
            ),
        };
        let rest = expand_members(base, services.drop_first(), step.1, overrides);
        (seq![step.0] + rest.0, rest.1)
    }
}

impl SvcLoad {
    /// Applies the request to a spec, exactly as `into_spec_result` says.
    #[verifier::rlimit(60)]
    pub fn into_spec(&self, spec: &mut ServiceSpec)
        ensures
            final(spec)@ == into_spec_result(self@, old(spec)@),
    {
        spec.ident = self.ident.dup();
        match self.group {
            None => {},
            Some(ref g) => {
                spec.group = g.clone();
            },
        }
        match self.application_environment {
            None => {},
            Some(ref ae) => {
                spec.application_environment = Some(ae.dup());
            },
        }
        match self.bldr_url {
            None => {},
            Some(ref u) => {
                spec.bldr_url = u.clone();
            },
        }
        match self.bldr_channel {
            None => {},
            Some(ref c) => {
                spec.channel = c.clone();
            },
        }
        match self.topology {
            None => {},
            Some(t) => {
                spec.topology = t;
            },
        }
        match self.update_strategy {
            None => {},
            Some(u) => {
                spec.update_strategy = u;
            },
        }
        match self.binds {
            None => {},
            Some(ref bs) => {
                let parts = partition_binds(bs);
                spec.binds = parts.1;
            },
        }
        match self.binding_mode {
            None => {},
            Some(b) => {
                spec.binding_mode = b;
            },
        }
        match self.config_from {
            None => {},
            Some(ref p) => {
                spec.config_from = Some(p.clone());
            },
        }
        match self.svc_encrypted_password {
            None => {},
            Some(ref p) => {
                spec.svc_encrypted_password = Some(p.clone());
            },
        }
        spec.composite = None;
    }

    /// Expands a composite load into one customized spec per member, all
    /// sharing the base spec the request denotes; the bindings of each
    /// member are resolved against the table and the request's
    /// composite-scoped bindings, exactly as `expand_members` says.
    pub fn into_composite_spec(
        &self,
        composite_name: String,
        services: Vec<PackageIdent>,
        bind_map: BindMap,
    ) -> (r: Vec<ServiceSpec>)
        ensures
            spec_views(r@) == expand_members(
                base_spec_of(self@, composite_name@),
                ident_views(services@),
                bind_map@,
                overrides_of(self@),
            ).0,
    {
        let ghost bm0 = bind_map@;
        let ghost sv = ident_views(services@);
        let ghost ovs = overrides_of(self@);
        let mut bind_map = bind_map;
        let mut base = ServiceSpec::default();
        self.into_spec(&mut base);
        base.composite = Some(composite_name);
        base.svc_encrypted_password = None;
        base.config_from = None;
        let ghost base_v = base@;
        proof {
            assert(base_v == base_spec_of(self@, composite_name@));
        }
        let composite_binds: Option<Vec<ServiceBind>> = match self.binds {
            None => None,
            Some(ref bs) => Some(partition_binds(bs).0),
        };
        let ghost full = expand_members(base_v, sv, bm0, ovs);
        let mut specs: Vec<ServiceSpec> = Vec::new();
        let mut i: usize = 0;
        proof {
            assert(sv.skip(0) =~= sv);
            assert(spec_views(specs@) =~= Seq::<ServiceSpecV>::empty());
            assert(spec_views(specs@) + expand_members(base_v, sv.skip(0), bind_map@, ovs).0
                =~= full.0);
        }
        while i < services.len()
            invariant
                0 <= i <= services@.len(),
                sv == ident_views(services@),
                base@ == base_v,
                ovs == overrides_of(self@),
                match composite_binds {
                    Some(ref bs) => ovs == Some(bind_views(bs@)),
                    None => ovs is None,
                },
                full == expand_members(base_v, sv, bm0, ovs),
                full.0 == spec_views(specs@) + expand_members(
                    base_v,
                    sv.skip(i as int),
                    bind_map@,
                    ovs,
                ).0,
                full.1 == expand_members(base_v, sv.skip(i as int), bind_map@, ovs).1,
            decreases services@.len() - i,
        {
            proof {
                assert(sv[i as int] == services@[i as int]@);
                assert(sv.skip(i as int).first() == sv[i as int]);
                assert(sv.skip(i as int).drop_first() =~= sv.skip(i + 1));
            }
            let mut spec = base.dup();
            spec.ident = services[i].dup();
            proof {
                assert(spec@ == (ServiceSpecV { ident: sv[i as int], ..base_v }));
            }
            match composite_binds {
                None => {},
                Some(ref binds) => {
                    set_composite_binds(&mut spec, &mut bind_map, binds);
                },
            }
            let ghost prior = spec_views(specs@);
            specs.push(spec);
            proof {
                assert(spec_views(specs@) =~= prior.push(spec@));
                assert(prior.push(spec@) =~= prior + seq![spec@]);
            }
            i = i + 1;
        }
        proof {
            assert(sv.skip(services@.len() as int) =~= Seq::<PackageIdentV>::empty());
            assert(spec_views(specs@) + Seq::<ServiceSpecV>::empty() =~= spec_views(specs@));
        }
        specs
    }

    /// Updates a composite member in place: only the fields the request
    /// set, and, when it gave bindings, the member's bindings resolved
    /// against the table — consuming its entry — and the request's
    /// composite-scoped bindings.
    pub fn update_composite(&self, bind_map: &mut BindMap, spec: &mut ServiceSpec)
        ensures
            match overrides_of(self@) {
                None => final(spec)@ == partial_update(self@, old(spec)@) && final(bind_map)@
                    == old(bind_map)@,
                Some(ovs) => {
                    let updated = ServiceSpecV {
                        binds: standard_part(self@.binds->0),
                        ..partial_update(self@, old(spec)@)
                    };
                    final(spec)@ == (ServiceSpecV {
                        binds: resolved_binds(
                            updated,
                            assoc_lookup(old(bind_map)@, updated.ident),
                            ovs,
                        ),
                        ..updated
                    }) && final(bind_map)@ == assoc_remove(old(bind_map)@, updated.ident)
                },
            },
    {
        match self.group {
            None => {},
            Some(ref g) => {
                spec.group = g.clone();
            },
        }
        match self.application_environment {
            None => {},
            Some(ref ae) => {
                spec.application_environment = Some(ae.dup());
            },
        }
        match self.bldr_url {
            None => {},
            Some(ref u) => {
                spec.bldr_url = u.clone();
            },
        }
        match self.bldr_channel {
            None => {},
            Some(ref c) => {
                spec.channel = c.clone();
            },
        }
        match self.topology {
            None => {},
            Some(t) => {
                spec.topology = t;
            },
        }
        match self.update_strategy {
            None => {},
            Some(u) => {
                spec.update_strategy = u;
            },
        }
        match self.binds {
            None => {},
            Some(ref bs) => {
                let parts = partition_binds(bs);
                spec.binds = parts.1;
                set_composite_binds(spec, bind_map, &parts.0);
            },
        }
    }
}

/// Conversion of an inbound load request into specs. The one request type
/// of this library implements it; the methods are those of `SvcLoad`.
pub trait IntoServiceSpec {
    /// Applies the request to a spec.
    fn into_spec(&self, spec: &mut ServiceSpec);

    /// Expands a composite load into one customized spec per member.
    fn into_composite_spec(
        &self,
        composite_name: String,
        services: Vec<PackageIdent>,
        bind_map: BindMap,
    ) -> Vec<ServiceSpec>;

    /// Updates a composite member in place.
    fn update_composite(&self, bind_map: &mut BindMap, spec: &mut ServiceSpec);
}

impl IntoServiceSpec for SvcLoad {
    fn into_spec(&self, spec: &mut ServiceSpec) {
        SvcLoad::into_spec(self, spec)
    }

    fn into_composite_spec(
        &self,
        composite_name: String,
        services: Vec<PackageIdent>,
        bind_map: BindMap,
    ) -> Vec<ServiceSpec> {
        SvcLoad::into_composite_spec(self, composite_name, services, bind_map)
    }

    fn update_composite(&self, bind_map: &mut BindMap, spec: &mut ServiceSpec) {
        SvcLoad::update_composite(self, bind_map, spec)
    }
}

} // verus!
