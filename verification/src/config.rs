//! The rule engine: a compiled exclusion rule set and an inclusion rule
//! set of four independent predicate families, evaluated against one
//! record at a time. A record that matches any exclusion rule is dropped
//! before inclusion is ever considered; otherwise a match outcome reports
//! which families matched and the organization tags they contributed.

use vstd::prelude::*;
use vstd::string::*;

use crate::models::{Embassy, Region};
use crate::patterns::{regex_match, Pattern};
use crate::text::{
    eq_ci, has_tag, insert_tag, join_comma, lower_of, lowercase, spec_contains, spec_join_comma,
    str_contains, str_eq_ci, tags_sorted, views_sorted,
};

verus! {

/// The exclusion rule set: blocked names, blocked embassy partners, and
/// the two delegate options, both enabled by default.
pub struct ExcludeConfig {
    pub name: Vec<String>,
    pub embassy: Vec<String>,
    pub existing_delegates: bool,
    pub nonexecutive_delegates: bool,
}

impl Default for ExcludeConfig {
    /// Nothing blocked; both delegate exclusions enabled.
    fn default() -> (r: Self)
        ensures
            r.name@.len() == 0,
            r.embassy@.len() == 0,
            r.existing_delegates,
            r.nonexecutive_delegates,
    {
        ExcludeConfig {
            name: Vec::new(),
            embassy: Vec::new(),
            existing_delegates: true,
            nonexecutive_delegates: true,
        }
    }
}

/// The record's name equals a blocked name, case-insensitively.
pub open spec fn name_blocked(cfg: ExcludeConfig, region: Region) -> bool {
    exists|i: int| 0 <= i < cfg.name@.len() && eq_ci(cfg.name@[i]@, region.name@)
}

/// Some active embassy's partner equals a blocked partner name,
/// case-insensitively. An embassy that is closing, rejected, or denied
/// never qualifies.
pub open spec fn embassy_blocked(cfg: ExcludeConfig, region: Region) -> bool {
    exists|i: int, j: int|
        0 <= i < cfg.embassy@.len() && 0 <= j < region.embassies@.len()
            && region.embassies@[j].status.spec_is_active() && eq_ci(
            region.embassies@[j].region@,
            cfg.embassy@[i]@,
        )
}

/// The record matches some exclusion rule: it has a delegate while
/// existing delegates are excluded, its delegate authority lacks the
/// executive capability while nonexecutive delegates are excluded, its
/// name is blocked, or an active embassy partner is blocked.
pub open spec fn spec_excluded(cfg: ExcludeConfig, region: Region) -> bool {
    ||| cfg.existing_delegates && region.delegate is Some
    ||| cfg.nonexecutive_delegates && !region.delegate_auth.executive
    ||| name_blocked(cfg, region)
    ||| embassy_blocked(cfg, region)
}

impl ExcludeConfig {
    /// Whether the record matches any exclusion rule.
    pub fn matches(&self, region: &Region) -> (r: bool)
        ensures
            r == spec_excluded(*self, *region),
    {
        if self.existing_delegates && region.delegate().is_some() {
            return true;
        }
        if self.nonexecutive_delegates && !region.delegate_auth().executive() {
            return true;
        }
        let mut i: usize = 0;
        while i < self.name.len()
            invariant
                0 <= i <= self.name@.len(),
                forall|k: int| 0 <= k < i ==> !eq_ci(self.name@[k]@, region.name@),
            decreases self.name@.len() - i,
        {
            if str_eq_ci(self.name[i].as_str(), region.name()) {
                assert(eq_ci(self.name@[i as int]@, region.name@));
                return true;
            }
            i += 1;
        }
        let mut i: usize = 0;
        while i < self.embassy.len()
            invariant
                0 <= i <= self.embassy@.len(),
                forall|k: int, j: int|
                    0 <= k < i && 0 <= j < region.embassies@.len() ==> !(
                    region.embassies@[j].status.spec_is_active() && eq_ci(
                        region.embassies@[j].region@,
                        self.embassy@[k]@,
                    )),
            decreases self.embassy@.len() - i,
        {
            let mut j: usize = 0;
            while j < region.embassies.len()
                invariant
                    0 <= i < self.embassy@.len(),
                    0 <= j <= region.embassies@.len(),
                    forall|l: int|
                        0 <= l < j ==> !(region.embassies@[l].status.spec_is_active() && eq_ci(
                            region.embassies@[l].region@,
                            self.embassy@[i as int]@,
                        )),
                decreases region.embassies@.len() - j,
            {
                let emb = &region.embassies[j];
                if emb.status().is_active() && str_eq_ci(emb.region(), self.embassy[i].as_str()) {
                    return true;
                }
                j += 1;
            }
            i += 1;
        }
        false
    }
}

/// The factbook-contains family: matches when the descriptive text holds
/// any configured substring (case-sensitive).
pub struct FactbookConfig {
    pub contains: Vec<String>,
    pub org: Option<String>,
}

impl FactbookConfig {
    /// The record's factbook holds one of the configured substrings.
    pub open spec fn spec_matches(self, region: Region) -> bool {
        exists|i: int| 0 <= i < self.contains@.len() && spec_contains(region.factbook@, self.contains@[i]@)
    }

    /// Whether this criterion matches the record.
    pub fn matches(&self, region: &Region) -> (r: bool)
        ensures
            r == self.spec_matches(*region),
    {
        let mut i: usize = 0;
        while i < self.contains.len()
            invariant
                0 <= i <= self.contains@.len(),
                forall|k: int| 0 <= k < i ==> !spec_contains(region.factbook@, self.contains@[k]@),
            decreases self.contains@.len() - i,
        {
            if str_contains(region.factbook(), self.contains[i].as_str()) {
                return true;
            }
            i += 1;
        }
        false
    }
}

/// The office-equals family: matches when any officer's office title
/// equals a configured title, case-insensitively.
pub struct OfficeConfig {
    pub equals: Vec<String>,
    pub org: Option<String>,
}

impl OfficeConfig {
    /// Some officer's office title equals a configured title,
    /// case-insensitively.
    pub open spec fn spec_matches(self, region: Region) -> bool {
        exists|i: int, j: int|
            0 <= i < self.equals@.len() && 0 <= j < region.officers@.len() && eq_ci(
                self.equals@[i]@,
                region.officers@[j].office@,
            )
    }

    /// Whether this criterion matches the record.
    pub fn matches(&self, region: &Region) -> (r: bool)
        ensures
            r == self.spec_matches(*region),
    {
        let mut j: usize = 0;
        while j < region.officers.len()
            invariant
                0 <= j <= region.officers@.len(),
                forall|i: int, l: int|
                    0 <= i < self.equals@.len() && 0 <= l < j ==> !eq_ci(
                        self.equals@[i]@,
                        region.officers@[l].office@,
                    ),
            decreases region.officers@.len() - j,
        {
            let office = &region.officers[j].office;
            let mut i: usize = 0;
            while i < self.equals.len()
                invariant
                    0 <= j < region.officers@.len(),
                    0 <= i <= self.equals@.len(),
                    office == &region.officers@[j as int].office,
                    forall|k: int|
                        0 <= k < i ==> !eq_ci(self.equals@[k]@, region.officers@[j as int].office@),
                decreases self.equals@.len() - i,
            {
                if str_eq_ci(self.equals[i].as_str(), office.as_str()) {
                    return true;
                }
                i += 1;
            }
            j += 1;
        }
        false
    }
}

/// The appointer-regex family: matches when any officer's appointer
/// identifier, lower-cased, is matched by a configured regular
/// expression. This family contributes no organization tag.
pub struct AppointerConfig {
    pub regex: Vec<Pattern>,
}

impl AppointerConfig {
    /// Some configured pattern matches some officer's lower-cased
    /// appointer identifier.
    pub open spec fn spec_matches(self, region: Region) -> bool {
        exists|i: int, j: int|
            0 <= i < self.regex@.len() && 0 <= j < region.officers@.len() && regex_match(
                self.regex@[i].spec_pattern(),
                lower_of(region.officers@[j].appointer@),
            )
    }

    /// Whether this criterion matches the record.
    pub fn matches(&self, region: &Region) -> (r: bool)
        ensures
            r == self.spec_matches(*region),
    {
        let mut j: usize = 0;
        while j < region.officers.len()
            invariant
                0 <= j <= region.officers@.len(),
                forall|i: int, l: int|
                    0 <= i < self.regex@.len() && 0 <= l < j ==> !regex_match(
                        self.regex@[i].spec_pattern(),
                        lower_of(region.officers@[l].appointer@),
                    ),
            decreases region.officers@.len() - j,
        {
            let appointer = lowercase(region.officers[j].appointer.as_str());
            let mut i: usize = 0;
            while i < self.regex.len()
                invariant
                    0 <= j < region.officers@.len(),
                    0 <= i <= self.regex@.len(),
                    appointer@ == lower_of(region.officers@[j as int].appointer@),
                    forall|k: int|
                        0 <= k < i ==> !regex_match(
                            self.regex@[k].spec_pattern(),
                            lower_of(region.officers@[j as int].appointer@),
                        ),
                decreases self.regex@.len() - i,
            {
                if self.regex[i].is_match(appointer.as_str()) {
                    return true;
                }
                i += 1;
            }
            j += 1;
        }
        false
    }
}

/// The embassy-equals family: matches when any active embassy's partner
/// name equals a configured name, case-insensitively.
pub struct EmbassyConfig {
    pub equals: Vec<String>,
    pub org: Option<String>,
}

impl EmbassyConfig {
    /// Some active embassy's partner equals a configured name,
    /// case-insensitively. An embassy that is closing, rejected, or denied
    /// never qualifies.
    pub open spec fn spec_matches(self, region: Region) -> bool {
        exists|i: int, j: int|
            0 <= i < self.equals@.len() && 0 <= j < region.embassies@.len()
                && region.embassies@[j].status.spec_is_active() && eq_ci(
                self.equals@[i]@,
                region.embassies@[j].region@,
            )
    }

    /// Whether this criterion matches the record.
    pub fn matches(&self, region: &Region) -> (r: bool)
        ensures
            r == self.spec_matches(*region),
    {
        let mut j: usize = 0;
        while j < region.embassies.len()
            invariant
                0 <= j <= region.embassies@.len(),
                forall|i: int, l: int|
                    0 <= i < self.equals@.len() && 0 <= l < j ==> !(
                    region.embassies@[l].status.spec_is_active() && eq_ci(
                        self.equals@[i]@,
                        region.embassies@[l].region@,
                    )),
            decreases region.embassies@.len() - j,
        {
            let emb = &region.embassies[j];
            if emb.status().is_active() {
                let mut i: usize = 0;
                while i < self.equals.len()
                    invariant
                        0 <= j < region.embassies@.len(),
                        0 <= i <= self.equals@.len(),
                        emb == &region.embassies@[j as int],
                        region.embassies@[j as int].status.spec_is_active(),
                        forall|k: int|
                            0 <= k < i ==> !eq_ci(
                                self.equals@[k]@,
                                region.embassies@[j as int].region@,
                            ),
                    decreases self.equals@.len() - i,
                {
                    if str_eq_ci(self.equals[i].as_str(), emb.region()) {
                        return true;
                    }
                    i += 1;
                }
            }
            j += 1;
        }
        false
    }
}

/// The inclusion rule set: four independently configured predicate
/// families, combined by logical or.
pub struct IncludeConfig {
    pub factbook: Vec<FactbookConfig>,
    pub office: Vec<OfficeConfig>,
    pub appointer: Vec<AppointerConfig>,
    pub embassy: Vec<EmbassyConfig>,
}

/// Some factbook criterion matches the record.
pub open spec fn factbook_family(inc: IncludeConfig, region: Region) -> bool {
    exists|k: int| 0 <= k < inc.factbook@.len() && inc.factbook@[k].spec_matches(region)
}

/// Some office criterion matches the record.
pub open spec fn office_family(inc: IncludeConfig, region: Region) -> bool {
    exists|k: int| 0 <= k < inc.office@.len() && inc.office@[k].spec_matches(region)
}

/// Some appointer criterion matches the record.
pub open spec fn appointer_family(inc: IncludeConfig, region: Region) -> bool {
    exists|k: int| 0 <= k < inc.appointer@.len() && inc.appointer@[k].spec_matches(region)
}

/// Some embassy criterion matches the record.
pub open spec fn embassy_family(inc: IncludeConfig, region: Region) -> bool {
    exists|k: int| 0 <= k < inc.embassy@.len() && inc.embassy@[k].spec_matches(region)
}

/// Some inclusion family matches the record.
pub open spec fn spec_included(inc: IncludeConfig, region: Region) -> bool {
    ||| factbook_family(inc, region)
    ||| office_family(inc, region)
    ||| appointer_family(inc, region)
    ||| embassy_family(inc, region)
}

/// A matching factbook criterion contributes the tag `s`.
pub open spec fn factbook_org(inc: IncludeConfig, region: Region, s: Seq<char>) -> bool {
    exists|k: int|
        0 <= k < inc.factbook@.len() && inc.factbook@[k].spec_matches(region)
            && (inc.factbook@[k].org matches Some(o) && o@ == s)
}

/// A matching office criterion contributes the tag `s`.
pub open spec fn office_org(inc: IncludeConfig, region: Region, s: Seq<char>) -> bool {
    exists|k: int|
        0 <= k < inc.office@.len() && inc.office@[k].spec_matches(region)
            && (inc.office@[k].org matches Some(o) && o@ == s)
}

/// A matching embassy criterion contributes the tag `s`.
pub open spec fn embassy_org(inc: IncludeConfig, region: Region, s: Seq<char>) -> bool {
    exists|k: int|
        0 <= k < inc.embassy@.len() && inc.embassy@[k].spec_matches(region)
            && (inc.embassy@[k].org matches Some(o) && o@ == s)
}

/// Some matching criterion contributes the tag `s`; the appointer family
/// never contributes one.
pub open spec fn spec_org(inc: IncludeConfig, region: Region, s: Seq<char>) -> bool {
    factbook_org(inc, region, s) || office_org(inc, region, s) || embassy_org(inc, region, s)
}

/// A name beginning with a character that a downstream tabular consumer
/// could take for a formula is prefixed with an escape character.
pub open spec fn spec_escaped(name: Seq<char>) -> Seq<char> {
    if name.len() > 0 && (name[0] == '=' || name[0] == '+' || name[0] == '-' || name[0] == '@') {
        seq!['\''] + name
    } else {
        name
    }
}

/// Applies the content-safety prefix to a record name where needed.
pub fn escape_name(name: &str) -> (r: String)
    ensures
        r@ == spec_escaped(name@),
{
    let len = name.unicode_len();
    if len > 0 {
        let c = name.get_char(0);
        if c == '=' || c == '+' || c == '-' || c == '@' {
            let mut s = String::from_str("'");
            s.append(name);
            proof {
                reveal_strlit("'");
                assert(s@ =~= seq!['\''] + name@);
            }
            return s;
        }
    }
    name.to_owned()
}

/// The per-record outcome of rule evaluation when the record was not
/// excluded and at least one inclusion family matched: the
/// content-safety-escaped name, one flag per reported family group, and
/// the sorted, comma-joined organization tags.
pub struct RegionMatchOutcome {
    pub name: String,
    pub wfe: bool,
    pub ro: bool,
    pub embassies: bool,
    pub orgs: String,
}

/// One compiled rule configuration: an exclusion rule set and an
/// inclusion rule set.
pub struct Config {
    pub exclude: ExcludeConfig,
    pub inclusion: IncludeConfig,
}

impl Config {
    /// Classifies one record. An excluded record yields nothing, whatever
    /// the inclusion rules say; otherwise the record yields an outcome
    /// exactly when some inclusion family matches. The outcome's flags
    /// report the factbook family, the officer-based families (office or
    /// appointer), and the embassy family; its tag string joins the
    /// contributed organization tags, sorted and deduplicated.
    pub fn matches(&self, region: &Region) -> (r: Option<RegionMatchOutcome>)
        ensures
            spec_excluded(self.exclude, *region) ==> r is None,
            r is Some <==> (!spec_excluded(self.exclude, *region) && spec_included(
                self.inclusion,
                *region,
            )),
            r matches Some(o) ==> {
                &&& o.name@ == spec_escaped(region.name@)
                &&& o.wfe == factbook_family(self.inclusion, *region)
                &&& o.ro == (office_family(self.inclusion, *region) || appointer_family(
                    self.inclusion,
                    *region,
                ))
                &&& o.embassies == embassy_family(self.inclusion, *region)
                &&& exists|tags: Seq<Seq<char>>|
                    {
                        &&& views_sorted(tags)
                        &&& forall|s: Seq<char>|
                            #[trigger] tags.contains(s) <==> spec_org(self.inclusion, *region, s)
                        &&& o.orgs@ == spec_join_comma(tags)
                    }
            },
    {
        if self.exclude.matches(region) {
            return None;
        }
        let inc = &self.inclusion;
        let ghost ginc = self.inclusion;
        let ghost greg = *region;
        let mut orgs: Vec<String> = Vec::new();
        let mut factbook = false;
        let mut ros = false;
        let mut embassies = false;

        let mut i: usize = 0;
        while i < inc.factbook.len()
            invariant
                0 <= i <= ginc.factbook@.len(),
                inc == &ginc,
                greg == *region,
                !factbook ==> forall|k: int| 0 <= k < i ==> !ginc.factbook@[k].spec_matches(greg),
                factbook ==> factbook_family(ginc, greg),
                tags_sorted(orgs@),
                forall|s: Seq<char>| has_tag(orgs@, s) ==> spec_org(ginc, greg, s),
                forall|k: int|
                    0 <= k < i && ginc.factbook@[k].spec_matches(greg)
                        && ginc.factbook@[k].org is Some ==> has_tag(
                        orgs@,
                        ginc.factbook@[k].org->0@,
                    ),
            decreases ginc.factbook@.len() - i,
        {
            let cfg = &inc.factbook[i];
            if cfg.matches(region) {
                factbook = true;
                match &cfg.org {
                    Some(org) => {
                        proof {
                            assert(ginc.factbook@[i as int].spec_matches(greg)
                                && (ginc.factbook@[i as int].org matches Some(o) && o@ == org@));
                        }
                        insert_tag(&mut orgs, org.clone());
                    },
                    None => {},
                }
            }
            i += 1;
        }

        let mut i: usize = 0;
        while i < inc.office.len()
            invariant
                0 <= i <= ginc.office@.len(),
                inc == &ginc,
                greg == *region,
                factbook == factbook_family(ginc, greg),
                !ros ==> forall|k: int| 0 <= k < i ==> !ginc.office@[k].spec_matches(greg),
                ros ==> office_family(ginc, greg),
                tags_sorted(orgs@),
                forall|s: Seq<char>| has_tag(orgs@, s) ==> spec_org(ginc, greg, s),
                forall|k: int|
                    0 <= k < ginc.factbook@.len() && ginc.factbook@[k].spec_matches(greg)
                        && ginc.factbook@[k].org is Some ==> has_tag(
                        orgs@,
                        ginc.factbook@[k].org->0@,
                    ),
                forall|k: int|
                    0 <= k < i && ginc.office@[k].spec_matches(greg) && ginc.office@[k].org is Some
                        ==> has_tag(orgs@, ginc.office@[k].org->0@),
            decreases ginc.office@.len() - i,
        {
            let cfg = &inc.office[i];
            if cfg.matches(region) {
                ros = true;
                match &cfg.org {
                    Some(org) => {
                        proof {
                            assert(ginc.office@[i as int].spec_matches(greg)
                                && (ginc.office@[i as int].org matches Some(o) && o@ == org@));
                        }
                        insert_tag(&mut orgs, org.clone());
                    },
                    None => {},
                }
            }
            i += 1;
        }
        let office_matched = ros;

        let mut i: usize = 0;
        while i < inc.appointer.len()
            invariant
                0 <= i <= ginc.appointer@.len(),
                inc == &ginc,
                greg == *region,
                office_matched == office_family(ginc, greg),
                !ros ==> !office_matched && forall|k: int|
                    0 <= k < i ==> !ginc.appointer@[k].spec_matches(greg),
                ros ==> office_family(ginc, greg) || appointer_family(ginc, greg),
            decreases ginc.appointer@.len() - i,
        {
            let cfg = &inc.appointer[i];
            if cfg.matches(region) {
                ros = true;
                proof {
                    assert(ginc.appointer@[i as int].spec_matches(greg));
                }
            }
            i += 1;
        }

        let mut i: usize = 0;
        while i < inc.embassy.len()
            invariant
                0 <= i <= ginc.embassy@.len(),
                inc == &ginc,
                greg == *region,
                factbook == factbook_family(ginc, greg),
                ros == (office_family(ginc, greg) || appointer_family(ginc, greg)),
                !embassies ==> forall|k: int| 0 <= k < i ==> !ginc.embassy@[k].spec_matches(greg),
                embassies ==> embassy_family(ginc, greg),
                tags_sorted(orgs@),
                forall|s: Seq<char>| has_tag(orgs@, s) ==> spec_org(ginc, greg, s),
                forall|k: int|
                    0 <= k < ginc.factbook@.len() && ginc.factbook@[k].spec_matches(greg)
                        && ginc.factbook@[k].org is Some ==> has_tag(
                        orgs@,
                        ginc.factbook@[k].org->0@,
                    ),
                forall|k: int|
                    0 <= k < ginc.office@.len() && ginc.office@[k].spec_matches(greg)
                        && ginc.office@[k].org is Some ==> has_tag(orgs@, ginc.office@[k].org->0@),
                forall|k: int|
                    0 <= k < i && ginc.embassy@[k].spec_matches(greg) && ginc.embassy@[k].org
                        is Some ==> has_tag(orgs@, ginc.embassy@[k].org->0@),
            decreases ginc.embassy@.len() - i,
        {
            let cfg = &inc.embassy[i];
            if cfg.matches(region) {
                embassies = true;
                match &cfg.org {
                    Some(org) => {
                        proof {
                            assert(ginc.embassy@[i as int].spec_matches(greg)
                                && (ginc.embassy@[i as int].org matches Some(o) && o@ == org@));
                        }
                        insert_tag(&mut orgs, org.clone());
                    },
                    None => {},
                }
            }
            i += 1;
        }

        if factbook || ros || embassies {
            let name = escape_name(region.name());
            let orgs_str = join_comma(&orgs);
            let ghost tags = Seq::new(orgs@.len(), |k: int| orgs@[k]@);
            proof {
                assert forall|s: Seq<char>| #[trigger] tags.contains(s) <==> spec_org(
                    ginc,
                    greg,
                    s,
                ) by {
                    if tags.contains(s) {
                        let k = choose|k: int| 0 <= k < tags.len() && tags[k] == s;
                        assert(orgs@[k]@ == s);
                        assert(has_tag(orgs@, s));
                    }
                    if spec_org(ginc, greg, s) {
                        if factbook_org(ginc, greg, s) {
                            let k = choose|k: int|
                                0 <= k < ginc.factbook@.len() && ginc.factbook@[k].spec_matches(
                                    greg,
                                ) && (ginc.factbook@[k].org matches Some(o) && o@ == s);
                            assert(has_tag(orgs@, ginc.factbook@[k].org->0@));
                        } else if office_org(ginc, greg, s) {
                            let k = choose|k: int|
                                0 <= k < ginc.office@.len() && ginc.office@[k].spec_matches(greg)
                                    && (ginc.office@[k].org matches Some(o) && o@ == s);
                            assert(has_tag(orgs@, ginc.office@[k].org->0@));
                        } else {
                            let k = choose|k: int|
                                0 <= k < ginc.embassy@.len() && ginc.embassy@[k].spec_matches(greg)
                                    && (ginc.embassy@[k].org matches Some(o) && o@ == s);
                            assert(has_tag(orgs@, ginc.embassy@[k].org->0@));
                        }
                    }
                    if has_tag(orgs@, s) {
                        let k = choose|k: int| 0 <= k < orgs@.len() && orgs@[k]@ == s;
                        assert(tags[k] == s);
                        assert(tags.contains(s));
                    }
                }
            }
            Some(
                RegionMatchOutcome {
                    name,
                    wfe: factbook,
                    ro: ros,
                    embassies,
                    orgs: orgs_str,
                },
            )
        } else {
            None
        }
    }
}

/// An embassy with status closing, rejected, or denied never contributes:
/// a record extended by one inactive embassy is excluded by embassy
/// exactly when the record without it is, and matches an embassy
/// inclusion criterion exactly when the record without it does, whatever
/// the embassy's partner name.
pub proof fn lemma_inactive_embassy_never_contributes(
    cfg: ExcludeConfig,
    inc: EmbassyConfig,
    base: Region,
    extended: Region,
    e: Embassy,
)
    requires
        !e.status.spec_is_active(),
        extended.embassies@ == base.embassies@.push(e),
        extended.name == base.name,
        extended.delegate == base.delegate,
        extended.delegate_auth == base.delegate_auth,
    ensures
        spec_excluded(cfg, extended) == spec_excluded(cfg, base),
        inc.spec_matches(extended) == inc.spec_matches(base),
{
    let nb = base.embassies@.len() as int;
    assert(embassy_blocked(cfg, extended) == embassy_blocked(cfg, base)) by {
        if embassy_blocked(cfg, base) {
            let (i, j) = choose|i: int, j: int|
                0 <= i < cfg.embassy@.len() && 0 <= j < base.embassies@.len()
                    && base.embassies@[j].status.spec_is_active() && eq_ci(
                    base.embassies@[j].region@,
                    cfg.embassy@[i]@,
                );
            assert(extended.embassies@[j] == base.embassies@[j]);
            assert(embassy_blocked(cfg, extended));
        }
        if embassy_blocked(cfg, extended) {
            let (i, j) = choose|i: int, j: int|
                0 <= i < cfg.embassy@.len() && 0 <= j < extended.embassies@.len()
                    && extended.embassies@[j].status.spec_is_active() && eq_ci(
                    extended.embassies@[j].region@,
                    cfg.embassy@[i]@,
                );
            assert(j < nb);
            assert(base.embassies@[j] == extended.embassies@[j]);
            assert(embassy_blocked(cfg, base));
        }
    }
    assert(name_blocked(cfg, extended) == name_blocked(cfg, base)) by {
        if name_blocked(cfg, base) {
            let i = choose|i: int|
                0 <= i < cfg.name@.len() && eq_ci(cfg.name@[i]@, base.name@);
            assert(eq_ci(cfg.name@[i]@, extended.name@));
            assert(name_blocked(cfg, extended));
        }
        if name_blocked(cfg, extended) {
            let i = choose|i: int|
                0 <= i < cfg.name@.len() && eq_ci(cfg.name@[i]@, extended.name@);
            assert(eq_ci(cfg.name@[i]@, base.name@));
            assert(name_blocked(cfg, base));
        }
    }
    assert(inc.spec_matches(extended) == inc.spec_matches(base)) by {
        if inc.spec_matches(base) {
            let (i, j) = choose|i: int, j: int|
                0 <= i < inc.equals@.len() && 0 <= j < base.embassies@.len()
                    && base.embassies@[j].status.spec_is_active() && eq_ci(
                    inc.equals@[i]@,
                    base.embassies@[j].region@,
                );
            assert(extended.embassies@[j] == base.embassies@[j]);
            assert(inc.spec_matches(extended));
        }
        if inc.spec_matches(extended) {
            let (i, j) = choose|i: int, j: int|
                0 <= i < inc.equals@.len() && 0 <= j < extended.embassies@.len()
                    && extended.embassies@[j].status.spec_is_active() && eq_ci(
                    inc.equals@[i]@,
                    extended.embassies@[j].region@,
                );
            assert(j < nb);
            assert(base.embassies@[j] == extended.embassies@[j]);
            assert(inc.spec_matches(base));
        }
    }
}

/// Blocked-name matching is case-insensitive: it depends only on the
/// lowercase image of the record's name.
pub proof fn lemma_name_blocked_case_insensitive(cfg: ExcludeConfig, r1: Region, r2: Region)
    requires
        lower_of(r1.name@) == lower_of(r2.name@),
    ensures
        name_blocked(cfg, r1) == name_blocked(cfg, r2),
{
    if name_blocked(cfg, r1) {
        let i = choose|i: int| 0 <= i < cfg.name@.len() && eq_ci(cfg.name@[i]@, r1.name@);
        assert(eq_ci(cfg.name@[i]@, r2.name@));
        assert(name_blocked(cfg, r2));
    }
    if name_blocked(cfg, r2) {
        let i = choose|i: int| 0 <= i < cfg.name@.len() && eq_ci(cfg.name@[i]@, r2.name@);
        assert(eq_ci(cfg.name@[i]@, r1.name@));
        assert(name_blocked(cfg, r1));
    }
}

/// Office-title matching is case-insensitive: it depends only on the
/// lowercase images of the officers' office titles.
pub proof fn lemma_office_match_case_insensitive(cfg: OfficeConfig, r1: Region, r2: Region)
    requires
        r1.officers@.len() == r2.officers@.len(),
        forall|j: int|
            0 <= j < r1.officers@.len() ==> lower_of(r1.officers@[j].office@) == lower_of(
                r2.officers@[j].office@,
            ),
    ensures
        cfg.spec_matches(r1) == cfg.spec_matches(r2),
{
    if cfg.spec_matches(r1) {
        let (i, j) = choose|i: int, j: int|
            0 <= i < cfg.equals@.len() && 0 <= j < r1.officers@.len() && eq_ci(
                cfg.equals@[i]@,
                r1.officers@[j].office@,
            );
        assert(eq_ci(cfg.equals@[i]@, r2.officers@[j].office@));
        assert(cfg.spec_matches(r2));
    }
    if cfg.spec_matches(r2) {
        let (i, j) = choose|i: int, j: int|
            0 <= i < cfg.equals@.len() && 0 <= j < r2.officers@.len() && eq_ci(
                cfg.equals@[i]@,
                r2.officers@[j].office@,
            );
        assert(eq_ci(cfg.equals@[i]@, r1.officers@[j].office@));
        assert(cfg.spec_matches(r1));
    }
}

/// Embassy-partner matching is case-insensitive: it depends only on the
/// lowercase images of the partner names, statuses staying as they are.
pub proof fn lemma_embassy_match_case_insensitive(cfg: EmbassyConfig, r1: Region, r2: Region)
    requires
        r1.embassies@.len() == r2.embassies@.len(),
        forall|j: int|
            0 <= j < r1.embassies@.len() ==> lower_of(r1.embassies@[j].region@) == lower_of(
                r2.embassies@[j].region@,
            ),
        forall|j: int|
            0 <= j < r1.embassies@.len() ==> r1.embassies@[j].status == r2.embassies@[j].status,
    ensures
        cfg.spec_matches(r1) == cfg.spec_matches(r2),
{
    if cfg.spec_matches(r1) {
        let (i, j) = choose|i: int, j: int|
            0 <= i < cfg.equals@.len() && 0 <= j < r1.embassies@.len()
                && r1.embassies@[j].status.spec_is_active() && eq_ci(
                cfg.equals@[i]@,
                r1.embassies@[j].region@,
            );
        assert(r2.embassies@[j].status.spec_is_active());
        assert(eq_ci(cfg.equals@[i]@, r2.embassies@[j].region@));
        assert(cfg.spec_matches(r2));
    }
    if cfg.spec_matches(r2) {
        let (i, j) = choose|i: int, j: int|
            0 <= i < cfg.equals@.len() && 0 <= j < r2.embassies@.len()
                && r2.embassies@[j].status.spec_is_active() && eq_ci(
                cfg.equals@[i]@,
                r2.embassies@[j].region@,
            );
        assert(r1.embassies@[j].status.spec_is_active());
        assert(eq_ci(cfg.equals@[i]@, r1.embassies@[j].region@));
        assert(cfg.spec_matches(r1));
    }
}

/// A record with an existing delegate is excluded whenever the
/// exclude-existing-delegates option is enabled (its default), whatever
/// inclusion criteria it would otherwise satisfy.
pub proof fn lemma_existing_delegate_excluded(cfg: ExcludeConfig, region: Region)
    requires
        cfg.existing_delegates,
        region.delegate is Some,
    ensures
        spec_excluded(cfg, region),
{
}

} // verus!
