use vstd::prelude::*;

use crate::ident::{PackageIdent, PackageIdentV};
use crate::spec::ServiceSpec;

verus! {

/// The descriptor of a composite: a named group of services loaded
/// together, expanded into one spec per member.
#[derive(Debug, Clone, PartialEq, Eq)]
pub struct CompositeSpec {
    pub name: String,
    pub ident: PackageIdent,
}

impl CompositeSpec {
    /// The identity of the composite package itself.
    pub fn ident(&self) -> (r: &PackageIdent)
        ensures
            r@ == self.ident@,
    {
        &self.ident
    }
}

/// Either one standalone service spec, or a composite descriptor together
/// with one customized spec per member. After expansion the member specs
/// are independent values; they carry no reference back to the composite.
pub enum Spec {
    Service(ServiceSpec),
    Composite(CompositeSpec, Vec<ServiceSpec>),
}

/// The identity a `Spec` names: the composite's own for a composite, the
/// service's for a standalone service.
pub open spec fn spec_ident(s: Spec) -> PackageIdentV {
    match s {
        Spec::Service(svc) => svc.ident@,
        Spec::Composite(c, _) => c.ident@,
    }
}

impl Spec {
    /// The identity this spec names.
    pub fn ident(&self) -> (r: &PackageIdent)
        ensures
            r@ == spec_ident(*self),
    {
        match self {
            Spec::Service(svc) => &svc.ident,
            Spec::Composite(c, _) => &c.ident,
        }
    }
}

} // verus!
