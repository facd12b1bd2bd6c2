use puree_cli::config::{
    escape_name, AppointerConfig, Config, EmbassyConfig, ExcludeConfig, FactbookConfig,
    IncludeConfig, OfficeConfig,
};
use puree_cli::matchers::Matcher;
use puree_cli::models::{Authority, Embassy, EmbassyStatus, Officer, Region};
use puree_cli::patterns::Pattern;

fn region(name: &str) -> Region {
    Region {
        name: name.to_string(),
        factbook: "A peaceful land.".to_string(),
        population: 10,
        delegate: None,
        delegate_votes: 0,
        delegate_auth: Authority::from_code("XCE"),
        frontier: true,
        governor: None,
        last_major: 1000,
        last_minor: 2000,
        officers: Vec::new(),
        embassies: Vec::new(),
    }
}

fn officer(office: &str, appointer: &str) -> Officer {
    Officer {
        name: "some_nation".to_string(),
        office: office.to_string(),
        authority: Authority::from_code("AC"),
        time: 12345,
        appointer: appointer.to_string(),
    }
}

fn embassy(partner: &str, status: EmbassyStatus) -> Embassy {
    Embassy { region: partner.to_string(), status }
}

fn no_exclusions() -> ExcludeConfig {
    ExcludeConfig {
        name: Vec::new(),
        embassy: Vec::new(),
        existing_delegates: false,
        nonexecutive_delegates: false,
    }
}

fn empty_inclusion() -> IncludeConfig {
    IncludeConfig {
        factbook: Vec::new(),
        office: Vec::new(),
        appointer: Vec::new(),
        embassy: Vec::new(),
    }
}

fn office_rule(title: &str, org: Option<&str>) -> OfficeConfig {
    OfficeConfig { equals: vec![title.to_string()], org: org.map(|s| s.to_string()) }
}

#[test]
fn end_to_end_office_match() {
    let mut r = region("Testlandia");
    r.officers.push(officer("Word Police", "the_founder"));
    r.embassies.push(embassy("Allied Land", EmbassyStatus::Open));
    let config = Config {
        exclude: no_exclusions(),
        inclusion: IncludeConfig {
            office: vec![office_rule("word police", Some("WFE"))],
            ..empty_inclusion()
        },
    };
    let outcome = config.matches(&r).expect("the office family matches");
    assert_eq!(outcome.name, "Testlandia");
    assert!(outcome.ro);
    assert!(!outcome.wfe);
    assert!(!outcome.embassies);
    assert_eq!(outcome.orgs, "WFE");
}

#[test]
fn excluded_record_yields_no_outcome() {
    // The record satisfies an inclusion rule, yet exclusion wins.
    let mut r = region("Blockedland");
    r.officers.push(officer("Word Police", "x"));
    let config = Config {
        exclude: ExcludeConfig { name: vec!["blockedland".to_string()], ..no_exclusions() },
        inclusion: IncludeConfig {
            office: vec![office_rule("word police", Some("WFE"))],
            ..empty_inclusion()
        },
    };
    assert!(config.matches(&r).is_none());
}

#[test]
fn existing_delegate_is_excluded_by_default() {
    let mut r = region("Delegated");
    r.delegate = Some("somebody".to_string());
    r.officers.push(officer("Word Police", "x"));
    let config = Config {
        exclude: ExcludeConfig::default(),
        inclusion: IncludeConfig {
            office: vec![office_rule("word police", Some("WFE"))],
            ..empty_inclusion()
        },
    };
    assert!(config.matches(&r).is_none());
}

#[test]
fn nonexecutive_delegate_is_excluded_by_default() {
    let mut r = region("Powerless");
    r.delegate_auth = Authority::from_code("CE");
    r.officers.push(officer("Word Police", "x"));
    let config = Config {
        exclude: ExcludeConfig::default(),
        inclusion: IncludeConfig {
            office: vec![office_rule("word police", Some("WFE"))],
            ..empty_inclusion()
        },
    };
    assert!(config.matches(&r).is_none());
}

#[test]
fn formula_like_name_is_escaped() {
    let mut r = region("=CMD");
    r.officers.push(officer("Word Police", "x"));
    let config = Config {
        exclude: no_exclusions(),
        inclusion: IncludeConfig {
            office: vec![office_rule("word police", None)],
            ..empty_inclusion()
        },
    };
    let outcome = config.matches(&r).expect("included");
    assert_eq!(outcome.name, "'=CMD");
    assert_eq!(outcome.orgs, "");
}

#[test]
fn escape_prefixes_each_risky_leading_character() {
    assert_eq!(escape_name("=CMD"), "'=CMD");
    assert_eq!(escape_name("+SUM"), "'+SUM");
    assert_eq!(escape_name("-SUB"), "'-SUB");
    assert_eq!(escape_name("@AT"), "'@AT");
    assert_eq!(escape_name("Plainland"), "Plainland");
    assert_eq!(escape_name(""), "");
}

#[test]
fn closed_embassies_never_contribute() {
    for status in [EmbassyStatus::Closing, EmbassyStatus::Rejected, EmbassyStatus::Denied] {
        let mut r = region("Emblandia");
        r.embassies.push(embassy("Partner", status));
        // Not excluded by a blocked partner of the same name.
        let exclude =
            ExcludeConfig { embassy: vec!["partner".to_string()], ..no_exclusions() };
        assert!(!exclude.matches(&r));
        // Not included by an embassy rule of the same name either.
        let config = Config {
            exclude: no_exclusions(),
            inclusion: IncludeConfig {
                embassy: vec![
                    EmbassyConfig {
                        equals: vec!["partner".to_string()],
                        org: Some("ORG".to_string()),
                    },
                ],
                ..empty_inclusion()
            },
        };
        assert!(config.matches(&r).is_none());
    }
    // The same embassy while open contributes to both.
    let mut r = region("Emblandia");
    r.embassies.push(embassy("Partner", EmbassyStatus::Open));
    let exclude = ExcludeConfig { embassy: vec!["partner".to_string()], ..no_exclusions() };
    assert!(exclude.matches(&r));
    let config = Config {
        exclude: no_exclusions(),
        inclusion: IncludeConfig {
            embassy: vec![
                EmbassyConfig { equals: vec!["partner".to_string()], org: Some("ORG".to_string()) },
            ],
            ..empty_inclusion()
        },
    };
    let outcome = config.matches(&r).expect("open embassy matches");
    assert!(outcome.embassies);
    assert_eq!(outcome.orgs, "ORG");
}

#[test]
fn comparisons_are_case_insensitive() {
    // Blocked names.
    let r = region("MiXeDcAsE");
    let exclude = ExcludeConfig { name: vec!["mixedcase".to_string()], ..no_exclusions() };
    assert!(exclude.matches(&r));
    // Office titles.
    let mut r = region("Offland");
    r.officers.push(officer("WORD POLICE", "x"));
    let rule = office_rule("Word Police", None);
    assert!(rule.matches(&r));
    // Embassy partners.
    let mut r = region("Emblandia");
    r.embassies.push(embassy("ALLIED land", EmbassyStatus::Open));
    let rule = EmbassyConfig { equals: vec!["allied LAND".to_string()], org: None };
    assert!(rule.matches(&r));
}

#[test]
fn appointer_regex_runs_on_lowercased_identifier() {
    let mut r = region("Apptland");
    r.officers.push(officer("Scribe", "MaxBarry"));
    let rx = Pattern::compile("^maxbarry$").expect("valid pattern");
    let rule = AppointerConfig { regex: vec![rx] };
    assert!(rule.matches(&r));
    let rx_upper = Pattern::compile("^MaxBarry$").expect("valid pattern");
    let rule_upper = AppointerConfig { regex: vec![rx_upper] };
    assert!(!rule_upper.matches(&r));
}

#[test]
fn invalid_pattern_is_refused() {
    assert!(Pattern::compile("foo(bar").is_none());
    let p = Pattern::compile("a+b").expect("valid pattern");
    assert_eq!(p.pattern(), "a+b");
    assert!(p.is_match("xxaab"));
    assert!(!p.is_match("xb"));
}

#[test]
fn factbook_search_is_case_sensitive_substring() {
    let mut r = region("Factland");
    r.factbook = "We love stamps and trains.".to_string();
    let hit = FactbookConfig {
        contains: vec!["stamps".to_string()],
        org: Some("PHIL".to_string()),
    };
    assert!(hit.matches(&r));
    let miss = FactbookConfig { contains: vec!["Stamps".to_string()], org: None };
    assert!(!miss.matches(&r));
}

#[test]
fn tags_are_sorted_and_deduplicated() {
    let mut r = region("Tagland");
    r.officers.push(officer("Word Police", "x"));
    r.factbook = "stamps and trains".to_string();
    r.embassies.push(embassy("Allied Land", EmbassyStatus::Open));
    let config = Config {
        exclude: no_exclusions(),
        inclusion: IncludeConfig {
            factbook: vec![
                FactbookConfig { contains: vec!["stamps".to_string()], org: Some("ZED".to_string()) },
                FactbookConfig { contains: vec!["trains".to_string()], org: Some("ALPHA".to_string()) },
            ],
            office: vec![office_rule("word police", Some("ZED"))],
            appointer: Vec::new(),
            embassy: vec![
                EmbassyConfig {
                    equals: vec!["allied land".to_string()],
                    org: Some("MIDDLE".to_string()),
                },
            ],
        },
    };
    let outcome = config.matches(&r).expect("everything matches");
    assert!(outcome.wfe && outcome.ro && outcome.embassies);
    assert_eq!(outcome.orgs, "ALPHA, MIDDLE, ZED");
}

fn match_foo(s: &str) -> Option<Vec<String>> {
    if s == "Foo" {
        Some(vec!["org_b".to_string(), "org_a".to_string()])
    } else {
        None
    }
}

fn match_stamps(s: &str) -> Option<Vec<String>> {
    if s.contains("stamps") {
        Some(vec!["org_a".to_string()])
    } else {
        None
    }
}

#[test]
fn matcher_combines_both_checks() {
    let m = Matcher::new(match_foo, match_stamps);
    let mut r = region("Foo");
    r.factbook = "stamps".to_string();
    let orgs = m.check(&r).expect("both matched");
    assert_eq!(orgs, vec!["org_a".to_string(), "org_b".to_string()]);
    let r2 = region("Bar");
    assert!(m.check(&r2).is_none());
    let mut r3 = region("Baz");
    r3.factbook = "stamps galore".to_string();
    let orgs3 = m.check(&r3).expect("factbook matched");
    assert_eq!(orgs3, vec!["org_a".to_string()]);
}
