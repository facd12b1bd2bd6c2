use puree_cli::models::{Authority, EmbassyStatus};

fn full() -> Authority {
    Authority {
        executive: true,
        world_assembly: true,
        succession: true,
        appearance: true,
        border_control: true,
        communications: true,
        embassies: true,
        polls: true,
    }
}

#[test]
fn decode_reads_each_letter() {
    let a = Authority::from_code("XCE");
    assert!(a.executive());
    assert!(a.communications());
    assert!(a.embassies());
    assert!(!a.succession());
    assert!(!a.appearance());
    assert!(!a.border_control());
    assert!(!a.polls());
}

#[test]
fn decode_ignores_unknown_letters() {
    let a = Authority::from_code("ZQX");
    assert!(a.executive());
    assert!(!a.polls());
    assert!(!a.communications());
}

#[test]
fn encode_emits_fixed_order() {
    // Letters come out in the order X, W, S, A, B, C, E, P no matter how
    // the set was written down.
    let a = Authority::from_code("PECBASWX");
    assert_eq!(a.to_code(), "XWSABCEP");
    let b = Authority::from_code("EX");
    assert_eq!(b.to_code(), "XE");
}

#[test]
fn encode_decode_round_trip() {
    let a = Authority::from_code("XCE");
    let again = Authority::from_code(&a.to_code());
    assert_eq!(a, again);
    let f = full();
    assert_eq!(Authority::from_code(&f.to_code()), f);
    let none = Authority::from_code("");
    assert_eq!(none.to_code(), "");
    assert_eq!(Authority::from_code(&none.to_code()), none);
}

#[test]
fn status_vocabulary() {
    assert_eq!(EmbassyStatus::from_code("pending"), EmbassyStatus::Pending);
    assert_eq!(EmbassyStatus::from_code("closing"), EmbassyStatus::Closing);
    assert_eq!(EmbassyStatus::from_code("invited"), EmbassyStatus::Invited);
    assert_eq!(EmbassyStatus::from_code("requested"), EmbassyStatus::Requested);
    assert_eq!(EmbassyStatus::from_code("rejected"), EmbassyStatus::Rejected);
    assert_eq!(EmbassyStatus::from_code("denied"), EmbassyStatus::Denied);
}

#[test]
fn status_defaults_to_open() {
    assert_eq!(EmbassyStatus::from_code(""), EmbassyStatus::Open);
    assert_eq!(EmbassyStatus::from_code("unheard-of"), EmbassyStatus::Open);
    // The vocabulary is lowercase; anything else falls back to open.
    assert_eq!(EmbassyStatus::from_code("Pending"), EmbassyStatus::Open);
}

#[test]
fn status_activity() {
    assert!(EmbassyStatus::Open.is_active());
    assert!(EmbassyStatus::Pending.is_active());
    assert!(EmbassyStatus::Invited.is_active());
    assert!(EmbassyStatus::Requested.is_active());
    assert!(!EmbassyStatus::Closing.is_active());
    assert!(!EmbassyStatus::Rejected.is_active());
    assert!(!EmbassyStatus::Denied.is_active());
}
