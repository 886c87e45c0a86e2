use vstd::prelude::*;

use crate::bind::ServiceBindV;
use crate::error::{SpecErrV, SpecError};
use crate::spec::ServiceSpec;
use crate::strutil::{str_eq, views_of};

verus! {

/// The names a spec's bindings declare, first occurrence kept, later
/// duplicates dropped: two bindings are the same slot exactly when their
/// names match.
pub open spec fn dedup_names(binds: Seq<ServiceBindV>) -> Seq<Seq<char>>
    decreases binds.len(),
{
    if binds.len() == 0 {
        Seq::<Seq<char>>::empty()
    } else {
        let front = dedup_names(binds.drop_last());
        if front.contains(binds.last().name) {
            front
        } else {
            front.push(binds.last().name)
        }
    }
}

/// The list with the first occurrence of the name taken out; the list
/// unchanged when the name is absent.
pub open spec fn remove_name(names: Seq<Seq<char>>, name: Seq<char>) -> Seq<Seq<char>>
    decreases names.len(),
{
    if names.len() == 0 {
        Seq::<Seq<char>>::empty()
    } else if names.first() == name {
        names.drop_first()
    } else {
        seq![names.first()] + remove_name(names.drop_first(), name)
    }
}

/// Walks the required names in order: each one found among the spec's names
/// is consumed; each one not found is collected. The result is (what is
/// left of the spec's names, every missing required name).
pub open spec fn consume_required(names: Seq<Seq<char>>, required: Seq<Seq<char>>) -> (
    Seq<Seq<char>>,
    Seq<Seq<char>>,
)
    decreases required.len(),
{
    if required.len() == 0 {
        (names, Seq::<Seq<char>>::empty())
    } else {
        let r0 = required.first();
        if names.contains(r0) {
            consume_required(remove_name(names, r0), required.drop_first())
        } else {
            let rest = consume_required(names, required.drop_first());
            (rest.0, seq![r0] + rest.1)
        }
    }
}

/// Consumes every optional name found among the spec's names.
pub open spec fn consume_optional(names: Seq<Seq<char>>, optional: Seq<Seq<char>>) -> Seq<
    Seq<char>,
>
    decreases optional.len(),
{
    if optional.len() == 0 {
        names
    } else {
        consume_optional(remove_name(names, optional.first()), optional.drop_first())
    }
}

/// The whole contract check, collect-all rather than fail-fast: every
/// missing required name is reported at once, and only when none is missing
/// are the names that match neither a required nor an optional bind
/// reported, again all at once.
pub open spec fn validate_binds_spec(
    binds: Seq<ServiceBindV>,
    required: Seq<Seq<char>>,
    optional: Seq<Seq<char>>,
) -> Result<(), SpecErrV> {
    let names = dedup_names(binds);
    let after_required = consume_required(names, required);
    if after_required.1.len() > 0 {
        Err(SpecErrV::MissingRequiredBind(after_required.1))
    } else {
        let leftover = consume_optional(after_required.0, optional);
        if leftover.len() > 0 {
            Err(SpecErrV::InvalidBinds(leftover))
        } else {
            Ok(())
        }
    }
}

/// Whether the name occurs among the views of the list.
fn names_contain(names: &Vec<String>, name: &str) -> (r: bool)
    ensures
        r == views_of(names@).contains(name@),
{
    let mut i: usize = 0;
    while i < names.len()
        invariant
            0 <= i <= names@.len(),
            forall|j: int| 0 <= j < i ==> (#[trigger] names@[j])@ != name@,
        decreases names@.len() - i,
    {
        if str_eq(names[i].as_str(), name) {
            proof {
                assert(views_of(names@)[i as int] == name@);
            }
            return true;
        }
        i = i + 1;
    }
    proof {
        assert forall|j: int| 0 <= j < views_of(names@).len() implies #[trigger] views_of(
            names@,
        )[j] != name@ by {
            assert(views_of(names@)[j] == names@[j]@);
        }
    }
    false
}

/// Removing the name at its first occurrence splits the list around that
/// occurrence.
proof fn lemma_remove_name_at(names: Seq<Seq<char>>, name: Seq<char>, i: int)
    requires
        0 <= i < names.len(),
        names[i] == name,
        forall|j: int| 0 <= j < i ==> names[j] != name,
    ensures
        remove_name(names, name) == names.take(i) + names.skip(i + 1),
    decreases i,
{
    if i == 0 {
        assert(names.first() == name);
        assert(remove_name(names, name) == names.drop_first());
        assert(names.take(0) + names.skip(1) =~= names.drop_first());
    } else {
        assert(names.first() != name);
        let rest = names.drop_first();
        assert(rest[i - 1] == name);
        assert forall|j: int| 0 <= j < i - 1 implies rest[j] != name by {
            assert(rest[j] == names[j + 1]);
        }
        lemma_remove_name_at(rest, name, i - 1);
        assert(remove_name(names, name) == seq![names.first()] + (rest.take(i - 1) + rest.skip(
            i,
        )));
        assert(seq![names.first()] + (rest.take(i - 1) + rest.skip(i)) =~= names.take(i)
            + names.skip(i + 1));
    }
}

/// Removing an absent name changes nothing.
proof fn lemma_remove_name_absent(names: Seq<Seq<char>>, name: Seq<char>)
    requires
        !names.contains(name),
    ensures
        remove_name(names, name) == names,
    decreases names.len(),
{
    if names.len() == 0 {
        assert(remove_name(names, name) =~= names);
    } else {
        assert(names[0] != name);
        let rest = names.drop_first();
        assert forall|j: int| 0 <= j < rest.len() implies rest[j] != name by {
            assert(rest[j] == names[j + 1]);
        }
        assert(!rest.contains(name));
        lemma_remove_name_absent(rest, name);
        assert(seq![names.first()] + rest =~= names);
    }
}

/// Takes the first occurrence of the name out of the list, if any.
fn remove_name_exec(names: &mut Vec<String>, name: &str)
    ensures
        views_of(final(names)@) == remove_name(views_of(old(names)@), name@),
{
    let ghost orig = views_of(old(names)@);
    let mut i: usize = 0;
    while i < names.len()
        invariant
            0 <= i <= names@.len(),
            names@ == old(names)@,
            forall|j: int| 0 <= j < i ==> (#[trigger] names@[j])@ != name@,
        decreases names@.len() - i,
    {
        if str_eq(names[i].as_str(), name) {
            let ghost pre = views_of(names@);
            proof {
                assert(pre[i as int] == names@[i as int]@);
                assert(pre[i as int] == name@);
                assert forall|j: int| 0 <= j < i implies pre[j] != name@ by {
                    assert(pre[j] == names@[j]@);
                }
                lemma_remove_name_at(pre, name@, i as int);
            }
            names.remove(i);
            proof {
                assert(views_of(names@) =~= pre.take(i as int) + pre.skip(i + 1));
                assert(views_of(names@) == remove_name(pre, name@));
            }
            return ;
        }
        i = i + 1;
    }
    proof {
        assert forall|j: int| 0 <= j < orig.len() implies #[trigger] orig[j] != name@ by {
            assert(orig[j] == names@[j]@);
        }
        assert(!orig.contains(name@));
        lemma_remove_name_absent(orig, name@);
    }
}

impl ServiceSpec {
    /// Checks the spec's bindings against a package's bind contract, given
    /// as the package's required and optional bind names. Exactly one of
    /// three things comes out: success; every missing required name; or,
    /// only when nothing is missing, every spec binding name that matches
    /// neither a required nor an optional package bind.
    pub fn validate_binds(&self, required: &Vec<String>, optional: &Vec<String>) -> (r: Result<
        (),
        SpecError,
    >)
        ensures
            match r {
                Ok(_) => validate_binds_spec(
                    self@.binds,
                    views_of(required@),
                    views_of(optional@),
                ) is Ok,
                Err(e) => validate_binds_spec(
                    self@.binds,
                    views_of(required@),
                    views_of(optional@),
                ) == Err::<(), SpecErrV>(e@),
            },
    {
        let ghost req_views = views_of(required@);
        let ghost opt_views = views_of(optional@);
        // the spec's bind names, first occurrence kept
        let mut names: Vec<String> = Vec::new();
        let mut i: usize = 0;
        proof {
            assert(self@.binds.take(0) =~= Seq::<ServiceBindV>::empty());
            assert(views_of(names@) =~= dedup_names(self@.binds.take(0)));
        }
        while i < self.binds.len()
            invariant
                0 <= i <= self.binds@.len(),
                self@.binds == self.binds@.map_values(|b: crate::bind::ServiceBind| b@),
                views_of(names@) == dedup_names(self@.binds.take(i as int)),
            decreases self.binds@.len() - i,
        {
            let present = names_contain(&names, self.binds[i].name.as_str());
            proof {
                assert(self@.binds.take(i + 1).drop_last() =~= self@.binds.take(i as int));
                assert(self@.binds.take(i + 1).last() == self@.binds[i as int]);
                assert(self@.binds[i as int].name == self.binds@[i as int]@.name);
            }
            if !present {
                let ghost prior = names@;
                names.push(self.binds[i].name.clone());
                proof {
                    assert(views_of(names@) =~= views_of(prior).push(
                        self@.binds[i as int].name,
                    ));
                }
            }
            i = i + 1;
        }
        proof {
            assert(self@.binds.take(self.binds@.len() as int) =~= self@.binds);
        }
        // consume every required name; collect what is not there
        let mut missing: Vec<String> = Vec::new();
        let ghost names_before = views_of(names@);
        let mut k: usize = 0;
        proof {
            assert(req_views.skip(0) =~= req_views);
            assert(views_of(missing@) =~= Seq::<Seq<char>>::empty());
        }
        while k < required.len()
            invariant
                0 <= k <= required@.len(),
                req_views == views_of(required@),
                consume_required(names_before, req_views) == (
                {
                    let rest = consume_required(views_of(names@), req_views.skip(k as int));
                    (rest.0, views_of(missing@) + rest.1)
                }),
            decreases required@.len() - k,
        {
            let ghost names_now = views_of(names@);
            let ghost miss_now = views_of(missing@);
            proof {
                assert(req_views.skip(k as int).first() == req_views[k as int]);
                assert(req_views.skip(k as int).drop_first() =~= req_views.skip(k + 1));
                assert(req_views[k as int] == required@[k as int]@);
            }
            if names_contain(&names, required[k].as_str()) {
                remove_name_exec(&mut names, required[k].as_str());
            } else {
                let ghost prior = missing@;
                missing.push(required[k].clone());
                proof {
                    assert(views_of(missing@) =~= views_of(prior).push(req_views[k as int]));
                    let rest = consume_required(names_now, req_views.skip(k + 1));
                    assert(miss_now + (seq![req_views[k as int]] + rest.1) =~= views_of(
                        missing@,
                    ) + rest.1);
                }
            }
            k = k + 1;
        }
        proof {
            assert(req_views.skip(required@.len() as int) =~= Seq::<Seq<char>>::empty());
            let rest = consume_required(views_of(names@), Seq::<Seq<char>>::empty());
            assert(rest.0 == views_of(names@) && rest.1 =~= Seq::<Seq<char>>::empty());
            assert(views_of(missing@) + rest.1 =~= views_of(missing@));
            assert(consume_required(names_before, req_views) == (
                views_of(names@),
                views_of(missing@),
            ));
        }
        if missing.len() > 0 {
            proof {
                assert(views_of(missing@) == missing@.map_values(|n: String| n@));
            }
            return Err(SpecError::MissingRequiredBind(missing));
        }
        // consume every optional name that is there
        let mut k: usize = 0;
        let ghost names_mid = views_of(names@);
        proof {
            assert(opt_views.skip(0) =~= opt_views);
        }
        while k < optional.len()
            invariant
                0 <= k <= optional@.len(),
                opt_views == views_of(optional@),
                consume_optional(names_mid, opt_views) == consume_optional(
                    views_of(names@),
                    opt_views.skip(k as int),
                ),
            decreases optional@.len() - k,
        {
            proof {
                assert(opt_views.skip(k as int).first() == opt_views[k as int]);
                assert(opt_views.skip(k as int).drop_first() =~= opt_views.skip(k + 1));
                assert(opt_views[k as int] == optional@[k as int]@);
            }
            remove_name_exec(&mut names, optional[k].as_str());
            k = k + 1;
        }
        proof {
            assert(opt_views.skip(optional@.len() as int) =~= Seq::<Seq<char>>::empty());
        }
        // whatever is left matches neither a required nor an optional bind
        if names.len() > 0 {
            proof {
                assert(views_of(names@) == names@.map_values(|n: String| n@));
            }
            return Err(SpecError::InvalidBinds(names));
        }
        proof {
            assert(views_of(names@) =~= Seq::<Seq<char>>::empty());
        }
        Ok(())
    }

    /// Checks the spec against a package's bind contract.
    pub fn validate(&self, required: &Vec<String>, optional: &Vec<String>) -> (r: Result<
        (),
        SpecError,
    >)
        ensures
            match r {
                Ok(_) => validate_binds_spec(
                    self@.binds,
                    views_of(required@),
                    views_of(optional@),
                ) is Ok,
                Err(e) => validate_binds_spec(
                    self@.binds,
                    views_of(required@),
                    views_of(optional@),
                ) == Err::<(), SpecErrV>(e@),
            },
    {
        self.validate_binds(required, optional)
    }
}

} // verus!
