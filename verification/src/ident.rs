use vstd::prelude::*;

use crate::error::{SpecErrV, SpecError};
use crate::strutil::{lemma_join_split, split_on, split_string, views_of};

verus! {

/// A package identity: origin, name, and optional version and release.
/// The zero value (all components empty or absent) is never a valid identity
/// for a spec.
#[derive(Debug, Clone, PartialEq, Eq, Hash)]
pub struct PackageIdent {
    pub origin: String,
    pub name: String,
    pub version: Option<String>,
    pub release: Option<String>,
}

/// The mathematical image of a `PackageIdent`.
pub struct PackageIdentV {
    pub origin: Seq<char>,
    pub name: Seq<char>,
    pub version: Option<Seq<char>>,
    pub release: Option<Seq<char>>,
}

impl View for PackageIdent {
    type V = PackageIdentV;

    open spec fn view(&self) -> PackageIdentV {
        PackageIdentV {
            origin: self.origin@,
            name: self.name@,
            version: match self.version {
                Some(ref v) => Some(v@),
                None => None,
            },
            release: match self.release {
                Some(ref r) => Some(r@),
                None => None,
            },
        }
    }
}

/// The zero-value identity.
pub open spec fn default_ident() -> PackageIdentV {
    PackageIdentV {
        origin: Seq::<char>::empty(),
        name: Seq::<char>::empty(),
        version: None,
        release: None,
    }
}

/// The identity grammar: `origin/name`, `origin/name/version` or
/// `origin/name/version/release`, split on `/`.
pub open spec fn parse_ident(s: Seq<char>) -> Option<PackageIdentV> {
    let parts = split_on(s, '/');
    if parts.len() == 2 {
        Some(PackageIdentV { origin: parts[0], name: parts[1], version: None, release: None })
    } else if parts.len() == 3 {
        Some(
            PackageIdentV {
                origin: parts[0],
                name: parts[1],
                version: Some(parts[2]),
                release: None,
            },
        )
    } else if parts.len() == 4 {
        Some(
            PackageIdentV {
                origin: parts[0],
                name: parts[1],
                version: Some(parts[2]),
                release: Some(parts[3]),
            },
        )
    } else {
        None
    }
}

/// Renders an identity back to its textual form. A release without a version
/// cannot be rendered and is left out.
pub open spec fn format_ident(v: PackageIdentV) -> Seq<char> {
    v.origin + seq!['/'] + v.name + (match v.version {
        None => Seq::<char>::empty(),
        Some(ver) => seq!['/'] + ver + (match v.release {
            None => Seq::<char>::empty(),
            Some(rel) => seq!['/'] + rel,
        }),
    })
}

/// Formatting is the exact inverse of parsing: whatever text parses as an
/// identity renders back to that very text.
pub proof fn lemma_ident_format_parse(s: Seq<char>)
    requires
        parse_ident(s) is Some,
    ensures
        format_ident(parse_ident(s)->Some_0) == s,
{
    let parts = split_on(s, '/');
    lemma_join_split(s, '/');
    let v = parse_ident(s)->Some_0;
    if parts.len() == 2 {
        assert(crate::strutil::join_with(parts, '/') == parts[0] + seq!['/']
            + crate::strutil::join_with(parts.drop_first(), '/'));
        assert(parts.drop_first().len() == 1);
        assert(crate::strutil::join_with(parts.drop_first(), '/') == parts.drop_first()[0]);
        assert(parts.drop_first()[0] == parts[1]);
        assert(format_ident(v) =~= parts[0] + seq!['/'] + parts[1]);
        assert(format_ident(v) == s);
    } else if parts.len() == 3 {
        let d1 = parts.drop_first();
        assert(crate::strutil::join_with(parts, '/') == parts[0] + seq!['/']
            + crate::strutil::join_with(d1, '/'));
        assert(d1.len() == 2);
        assert(crate::strutil::join_with(d1, '/') == d1[0] + seq!['/']
            + crate::strutil::join_with(d1.drop_first(), '/'));
        assert(d1.drop_first().len() == 1);
        assert(crate::strutil::join_with(d1.drop_first(), '/') == d1.drop_first()[0]);
        assert(d1[0] == parts[1]);
        assert(d1.drop_first()[0] == parts[2]);
        assert(format_ident(v) =~= parts[0] + seq!['/'] + (parts[1] + seq!['/'] + parts[2]));
        assert(format_ident(v) =~= s);
    } else {
        let d1 = parts.drop_first();
        let d2 = d1.drop_first();
        assert(crate::strutil::join_with(parts, '/') == parts[0] + seq!['/']
            + crate::strutil::join_with(d1, '/'));
        assert(d1.len() == 3);
        assert(crate::strutil::join_with(d1, '/') == d1[0] + seq!['/']
            + crate::strutil::join_with(d2, '/'));
        assert(d2.len() == 2);
        assert(crate::strutil::join_with(d2, '/') == d2[0] + seq!['/']
            + crate::strutil::join_with(d2.drop_first(), '/'));
        assert(d2.drop_first().len() == 1);
        assert(crate::strutil::join_with(d2.drop_first(), '/') == d2.drop_first()[0]);
        assert(d1[0] == parts[1]);
        assert(d2[0] == parts[2]);
        assert(d2.drop_first()[0] == parts[3]);
        assert(format_ident(v) =~= parts[0] + seq!['/'] + (parts[1] + seq!['/'] + (parts[2]
            + seq!['/'] + parts[3])));
        assert(format_ident(v) =~= s);
    }
}

impl PackageIdent {
    /// The zero-value identity; never valid for a spec.
    pub fn zero() -> (r: PackageIdent)
        ensures
            r@ == default_ident(),
    {
        PackageIdent { origin: String::new(), name: String::new(), version: None, release: None }
    }

    /// Parses an identity from its textual form.
    pub fn parse(value: &str) -> (r: Result<PackageIdent, SpecError>)
        ensures
            match r {
                Ok(id) => parse_ident(value@) == Some(id@),
                Err(e) => parse_ident(value@) is None && e@ == SpecErrV::InvalidPackageIdent(
                    value@,
                ),
            },
    {
        let parts = split_string(value, '/');
        proof {
            assert(views_of(parts@) == split_on(value@, '/'));
        }
        if parts.len() == 2 {
            let r = PackageIdent {
                origin: parts[0].clone(),
                name: parts[1].clone(),
                version: None,
                release: None,
            };
            proof {
                assert(r@.origin == views_of(parts@)[0]);
                assert(r@.name == views_of(parts@)[1]);
            }
            Ok(r)
        } else if parts.len() == 3 {
            let r = PackageIdent {
                origin: parts[0].clone(),
                name: parts[1].clone(),
                version: Some(parts[2].clone()),
                release: None,
            };
            proof {
                assert(r@.origin == views_of(parts@)[0]);
                assert(r@.name == views_of(parts@)[1]);
                assert(r@.version == Some(views_of(parts@)[2]));
            }
            Ok(r)
        } else if parts.len() == 4 {
            let r = PackageIdent {
                origin: parts[0].clone(),
                name: parts[1].clone(),
                version: Some(parts[2].clone()),
                release: Some(parts[3].clone()),
            };
            proof {
                assert(r@.origin == views_of(parts@)[0]);
                assert(r@.name == views_of(parts@)[1]);
                assert(r@.version == Some(views_of(parts@)[2]));
                assert(r@.release == Some(views_of(parts@)[3]));
            }
            Ok(r)
        } else {
            Err(SpecError::InvalidPackageIdent(value.to_owned()))
        }
    }

    /// Renders the identity to its textual form.
    pub fn to_text(&self) -> (r: String)
        ensures
            r@ == format_ident(self@),
    {
        let mut out = self.origin.clone();
        out.append("/");
        out.append(self.name.as_str());
        match self.version {
            None => {},
            Some(ref ver) => {
                out.append("/");
                out.append(ver.as_str());
                match self.release {
                    None => {},
                    Some(ref rel) => {
                        out.append("/");
                        out.append(rel.as_str());
                    },
                }
            },
        }
        proof {
            reveal_strlit("/");
            assert("/"@ =~= seq!['/']);
            assert(out@ =~= format_ident(self@));
        }
        out
    }

    /// Whether this is the zero-value identity.
    pub fn is_default(&self) -> (r: bool)
        ensures
            r == (self@ == default_ident()),
    {
        let r = self.origin.as_str().is_empty() && self.name.as_str().is_empty()
            && self.version.is_none() && self.release.is_none();
        proof {
            if r {
                assert(self@.origin =~= Seq::<char>::empty());
                assert(self@.name =~= Seq::<char>::empty());
                assert(self@ == default_ident());
            } else {
                if self@ == default_ident() {
                    assert(self.origin@.len() == 0);
                    assert(self.name@.len() == 0);
                    assert(self.version is None && self.release is None);
                }
            }
        }
        r
    }

    /// Whether the two identities hold the same components.
    pub fn same_as(&self, other: &PackageIdent) -> (r: bool)
        ensures
            r == (self@ == other@),
    {
        let parts_eq = crate::strutil::str_eq(self.origin.as_str(), other.origin.as_str())
            && crate::strutil::str_eq(self.name.as_str(), other.name.as_str());
        let version_eq = match (&self.version, &other.version) {
            (None, None) => true,
            (Some(a), Some(b)) => crate::strutil::str_eq(a.as_str(), b.as_str()),
            _ => false,
        };
        let release_eq = match (&self.release, &other.release) {
            (None, None) => true,
            (Some(a), Some(b)) => crate::strutil::str_eq(a.as_str(), b.as_str()),
            _ => false,
        };
        parts_eq && version_eq && release_eq
    }

    /// A copy whose view is the same.
    pub fn dup(&self) -> (r: PackageIdent)
        ensures
            r@ == self@,
    {
        PackageIdent {
            origin: self.origin.clone(),
            name: self.name.clone(),
            version: match self.version {
                Some(ref v) => Some(v.clone()),
                None => None,
            },
            release: match self.release {
                Some(ref r) => Some(r.clone()),
                None => None,
            },
        }
    }
}

} // verus!
