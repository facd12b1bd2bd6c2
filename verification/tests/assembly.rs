use puree_cli::assembler::{Assembler, Event};
use puree_cli::error::Error;
use puree_cli::models::{
    Authority, EmbassyBuilder, EmbassyStatus, OfficerBuilder, Region, RegionBuilder,
};

fn start(name: &str) -> Event {
    Event::Start { name: name.to_string(), type_attr: None }
}

fn start_typed(name: &str, attr: &str) -> Event {
    Event::Start { name: name.to_string(), type_attr: Some(attr.to_string()) }
}

fn end(name: &str) -> Event {
    Event::End { name: name.to_string() }
}

fn text(content: &str) -> Event {
    Event::Text { content: content.to_string() }
}

fn cdata(content: &str) -> Event {
    Event::CData { content: content.to_string() }
}

/// Feeds a field element: open tag, text, close tag. Every intermediate
/// step must stay silent.
fn feed_field(machine: &mut Assembler, tag: &str, value: &str) {
    assert!(machine.step(start(tag)).is_none());
    assert!(machine.step(text(value)).is_none());
    assert!(machine.step(end(tag)).is_none());
}

/// Feeds one complete record and returns what the closing boundary yields.
fn feed_record(machine: &mut Assembler, delegate: &str) -> Option<Result<Region, Error>> {
    assert!(machine.step(start("REGION")).is_none());
    feed_field(machine, "NAME", "Testlandia");
    assert!(machine.step(start("FACTBOOK")).is_none());
    assert!(machine.step(cdata("A peaceful land.")).is_none());
    assert!(machine.step(end("FACTBOOK")).is_none());
    feed_field(machine, "NUMNATIONS", "10");
    feed_field(machine, "DELEGATE", delegate);
    feed_field(machine, "DELEGATEVOTES", "0");
    feed_field(machine, "DELEGATEAUTH", "XCE");
    feed_field(machine, "FRONTIER", "1");
    feed_field(machine, "GOVERNOR", "0");
    feed_field(machine, "LASTMAJORUPDATE", "1000");
    feed_field(machine, "LASTMINORUPDATE", "2000");
    assert!(machine.step(start("OFFICER")).is_none());
    feed_field(machine, "NATION", "some_nation");
    feed_field(machine, "OFFICE", "Word Police");
    feed_field(machine, "AUTHORITY", "AC");
    feed_field(machine, "TIME", "12345");
    feed_field(machine, "BY", "the_founder");
    assert!(machine.step(end("OFFICER")).is_none());
    assert!(machine.step(start_typed("EMBASSY", "")).is_none());
    assert!(machine.step(text("Allied Land")).is_none());
    assert!(machine.step(end("EMBASSY")).is_none());
    machine.step(end("REGION"))
}

#[test]
fn assembles_one_full_record() {
    let mut machine = Assembler::new();
    assert!(machine.step(start("REGIONS")).is_none());
    let region = feed_record(&mut machine, "0").expect("record boundary").expect("valid record");
    assert_eq!(region.name(), "Testlandia");
    assert_eq!(region.factbook(), "A peaceful land.");
    assert_eq!(region.population(), 10);
    assert_eq!(region.delegate(), None);
    assert_eq!(region.delegate_votes(), 0);
    assert!(region.delegate_auth().executive());
    assert!(region.delegate_auth().communications());
    assert!(region.delegate_auth().embassies());
    assert!(region.frontier());
    assert_eq!(region.governor(), None);
    assert_eq!(region.last_major(), 1000);
    assert_eq!(region.last_minor(), 2000);
    assert_eq!(region.officers().len(), 1);
    assert_eq!(region.officers()[0].name(), "some_nation");
    assert_eq!(region.officers()[0].office(), "Word Police");
    assert_eq!(region.officers()[0].time(), 12345);
    assert_eq!(region.officers()[0].appointer(), "the_founder");
    assert_eq!(region.embassies().len(), 1);
    assert_eq!(region.embassies()[0].region(), "Allied Land");
    assert_eq!(*region.embassies()[0].status(), EmbassyStatus::Open);
}

#[test]
fn delegate_sentinel_means_absent() {
    let mut machine = Assembler::new();
    let region = feed_record(&mut machine, "0").unwrap().unwrap();
    assert_eq!(region.delegate(), None);
    let mut machine = Assembler::new();
    let region = feed_record(&mut machine, "big_delegate").unwrap().unwrap();
    assert_eq!(region.delegate(), Some("big_delegate"));
}

#[test]
fn consecutive_records_do_not_share_state() {
    let mut machine = Assembler::new();
    let first = feed_record(&mut machine, "somebody").unwrap().unwrap();
    let second = feed_record(&mut machine, "0").unwrap().unwrap();
    assert_eq!(first.delegate(), Some("somebody"));
    assert_eq!(second.delegate(), None);
    assert_eq!(second.officers().len(), 1);
    assert_eq!(second.embassies().len(), 1);
}

#[test]
fn embassy_type_attribute_sets_status() {
    let mut machine = Assembler::new();
    assert!(machine.step(start_typed("EMBASSY", "denied")).is_none());
    assert!(machine.step(text("Grudgeland")).is_none());
    assert!(machine.step(end("EMBASSY")).is_none());
    // The embassy went into the enclosing draft; finish a minimal record
    // around it to observe it.
    let out = feed_record(&mut machine, "0").unwrap().unwrap();
    assert_eq!(out.embassies().len(), 2);
    assert_eq!(out.embassies()[0].region(), "Grudgeland");
    assert_eq!(*out.embassies()[0].status(), EmbassyStatus::Denied);
}

#[test]
fn numeric_field_failure_is_fatal() {
    let mut machine = Assembler::new();
    assert!(machine.step(start("REGION")).is_none());
    assert!(machine.step(start("NUMNATIONS")).is_none());
    let out = machine.step(text("not-a-number"));
    assert!(matches!(out, Some(Err(Error::Parse))));
}

#[test]
fn missing_population_names_field_and_kind() {
    let mut machine = Assembler::new();
    assert!(machine.step(start("REGION")).is_none());
    feed_field(&mut machine, "NAME", "Incompleteland");
    assert!(machine.step(start("FACTBOOK")).is_none());
    assert!(machine.step(cdata("text")).is_none());
    assert!(machine.step(end("FACTBOOK")).is_none());
    // population missing; everything else present
    feed_field(&mut machine, "DELEGATEVOTES", "0");
    feed_field(&mut machine, "DELEGATEAUTH", "X");
    feed_field(&mut machine, "FRONTIER", "0");
    feed_field(&mut machine, "LASTMAJORUPDATE", "1");
    feed_field(&mut machine, "LASTMINORUPDATE", "2");
    let out = machine.step(end("REGION")).expect("record boundary");
    match out {
        Err(Error::Builder { field, model }) => {
            assert_eq!(field, "population");
            assert_eq!(model, "region");
        },
        other => panic!("expected a missing-field error, got {:?}", other),
    }
}

#[test]
fn missing_officer_field_names_field_and_kind() {
    let mut machine = Assembler::new();
    assert!(machine.step(start("REGION")).is_none());
    assert!(machine.step(start("OFFICER")).is_none());
    feed_field(&mut machine, "NATION", "someone");
    feed_field(&mut machine, "OFFICE", "Scribe");
    feed_field(&mut machine, "AUTHORITY", "C");
    feed_field(&mut machine, "TIME", "5");
    // appointer missing
    let out = machine.step(end("OFFICER")).expect("finalization failure");
    match out {
        Err(Error::Builder { field, model }) => {
            assert_eq!(field, "appointer");
            assert_eq!(model, "officer");
        },
        other => panic!("expected a missing-field error, got {:?}", other),
    }
}

#[test]
fn missing_embassy_status_names_field_and_kind() {
    let mut b = EmbassyBuilder::default();
    b.region("Partner".to_string());
    match b.build() {
        Err(Error::Builder { field, model }) => {
            assert_eq!(field, "status");
            assert_eq!(model, "embassy");
        },
        other => panic!("expected a missing-field error, got {:?}", other),
    }
}

#[test]
fn builders_report_first_missing_field() {
    let mut b = RegionBuilder::default();
    match b.build() {
        Err(Error::Builder { field, model }) => {
            assert_eq!(field, "name");
            assert_eq!(model, "region");
        },
        other => panic!("expected a missing-field error, got {:?}", other),
    }
    b.name("Somewhere".to_string());
    match b.build() {
        Err(Error::Builder { field, .. }) => assert_eq!(field, "factbook"),
        other => panic!("expected a missing-field error, got {:?}", other),
    }
    let mut ob = OfficerBuilder::default();
    ob.name("x".to_string());
    ob.office("y".to_string());
    ob.authority(Authority::from_code("X"));
    match ob.build() {
        Err(Error::Builder { field, model }) => {
            assert_eq!(field, "time");
            assert_eq!(model, "officer");
        },
        other => panic!("expected a missing-field error, got {:?}", other),
    }
}

#[test]
fn text_outside_any_tag_is_ignored() {
    let mut machine = Assembler::new();
    assert!(machine.step(text("stray whitespace")).is_none());
    assert!(machine.step(Event::Eof).is_none());
}
