//! A pluggable matcher built from two function values: one checks a
//! record's name, the other its descriptive text, and each may report a
//! set of matched organizations.

use vstd::prelude::*;

use crate::models::Region;
use crate::text::{has_tag, insert_tag, tags_sorted};

verus! {

/// The organizations of a combined check: nothing when neither function
/// matched, otherwise the sorted, deduplicated union of what the two
/// functions reported.
pub open spec fn combined(
    rn: Option<Vec<String>>,
    rf: Option<Vec<String>>,
    r: Option<Vec<String>>,
) -> bool {
    if rn is None && rf is None {
        r is None
    } else {
        r matches Some(v) && tags_sorted(v@) && (forall|s: Seq<char>|
            #[trigger] has_tag(v@, s) <==> ((rn matches Some(x) && has_tag(x@, s)) || (
            rf matches Some(y) && has_tag(y@, s))))
    }
}

/// A matcher over a record's name and descriptive text. Each function
/// returns the organizations it matched, or nothing when it did not
/// match; an empty set is a match without an organization.
pub struct Matcher<N, F> where
    N: Fn(&str) -> Option<Vec<String>>,
    F: Fn(&str) -> Option<Vec<String>>,
 {
    pub name: N,
    pub factbook: F,
}

impl<N, F> Matcher<N, F> where
    N: Fn(&str) -> Option<Vec<String>>,
    F: Fn(&str) -> Option<Vec<String>>,
 {
    /// Builds a matcher from the two checking functions.
    pub fn new(name_fn: N, factbook_fn: F) -> (r: Self)
        ensures
            r.name == name_fn,
            r.factbook == factbook_fn,
    {
        Self { name: name_fn, factbook: factbook_fn }
    }

    /// Checks a record against both functions and combines what they
    /// report: nothing when neither matched, otherwise the union of
    /// their organizations, sorted and deduplicated.
    pub fn check(&self, region: &Region) -> (r: Option<Vec<String>>)
        requires
            forall|s: &str| call_requires(self.name, (s,)),
            forall|s: &str| call_requires(self.factbook, (s,)),
        ensures
            exists|a: &str, b: &str, rn: Option<Vec<String>>, rf: Option<Vec<String>>|
                {
                    &&& a@ == region.name@
                    &&& b@ == region.factbook@
                    &&& #[trigger] call_ensures(self.name, (a,), rn)
                    &&& #[trigger] call_ensures(self.factbook, (b,), rf)
                    &&& combined(rn, rf, r)
                },
    {
        let name_arg = region.name();
        let name_res = (self.name)(name_arg);
        let factbook_arg = region.factbook();
        let factbook_res = (self.factbook)(factbook_arg);
        let matched = name_res.is_some() || factbook_res.is_some();
        if !matched {
            proof {
                assert(combined(name_res, factbook_res, None::<Vec<String>>));
            }
            return None;
        }
        let mut orgs: Vec<String> = Vec::new();
        match &name_res {
            Some(list) => {
                let mut i: usize = 0;
                while i < list.len()
                    invariant
                        0 <= i <= list@.len(),
                        tags_sorted(orgs@),
                        forall|s: Seq<char>|
                            #[trigger] has_tag(orgs@, s) <==> exists|k: int|
                                0 <= k < i && list@[k]@ == s,
                    decreases list@.len() - i,
                {
                    insert_tag(&mut orgs, list[i].clone());
                    i += 1;
                }
            },
            None => {},
        }
        match &factbook_res {
            Some(list) => {
                let ghost mid = orgs@;
                let mut i: usize = 0;
                while i < list.len()
                    invariant
                        0 <= i <= list@.len(),
                        tags_sorted(orgs@),
                        forall|s: Seq<char>|
                            #[trigger] has_tag(orgs@, s) <==> has_tag(mid, s) || exists|k: int|
                                0 <= k < i && list@[k]@ == s,
                    decreases list@.len() - i,
                {
                    insert_tag(&mut orgs, list[i].clone());
                    i += 1;
                }
            },
            None => {},
        }
        proof {
            assert(combined(name_res, factbook_res, Some(orgs)));
        }
        Some(orgs)
    }
}

} // verus!
