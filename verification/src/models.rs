//! The record data model: capability bitsets, embassy statuses, officers,
//! embassies, territory records, and the draft builders that validate a
//! record when its closing boundary is reached.

use vstd::prelude::*;

use crate::error::Error;
use crate::text::{str_contains_char, str_eq};

verus! {

/// An 8-bit capability set. Its letter coding draws each capability from
/// the fixed alphabet X, W, S, A, B, C, E, P, in that order.
#[derive(Clone, Copy, PartialEq, Eq, Structural, Debug)]
pub struct Authority {
    pub executive: bool,
    pub world_assembly: bool,
    pub succession: bool,
    pub appearance: bool,
    pub border_control: bool,
    pub communications: bool,
    pub embassies: bool,
    pub polls: bool,
}

/// One letter of a capability coding, present when its flag is set.
pub open spec fn seg(flag: bool, c: char) -> Seq<char> {
    if flag {
        seq![c]
    } else {
        Seq::empty()
    }
}

/// The position of a capability letter in the fixed alphabet; letters
/// outside the alphabet sort last.
pub open spec fn alpha_index(c: char) -> int {
    if c == 'X' {
        0
    } else if c == 'W' {
        1
    } else if c == 'S' {
        2
    } else if c == 'A' {
        3
    } else if c == 'B' {
        4
    } else if c == 'C' {
        5
    } else if c == 'E' {
        6
    } else if c == 'P' {
        7
    } else {
        8
    }
}

/// Letters occur in strictly ascending alphabet position.
pub open spec fn code_ordered(s: Seq<char>) -> bool {
    forall|i: int, j: int| 0 <= i < j < s.len() ==> alpha_index(s[i]) < alpha_index(s[j])
}

/// Every letter of the sequence sits before position `m` of the alphabet.
pub open spec fn code_bounded(s: Seq<char>, m: int) -> bool {
    forall|i: int| 0 <= i < s.len() ==> alpha_index(s[i]) < m
}

/// Membership in a concatenation is membership in either part.
proof fn lemma_contains_add(a: Seq<char>, b: Seq<char>, x: char)
    ensures
        (a + b).contains(x) <==> a.contains(x) || b.contains(x),
{
    if (a + b).contains(x) {
        let i = choose|i: int| 0 <= i < (a + b).len() && (a + b)[i] == x;
        if i < a.len() {
            assert(a[i] == x);
        } else {
            assert(b[i - a.len()] == x);
        }
    }
    if a.contains(x) {
        let i = choose|i: int| 0 <= i < a.len() && a[i] == x;
        assert((a + b)[i] == x);
    }
    if b.contains(x) {
        let i = choose|i: int| 0 <= i < b.len() && b[i] == x;
        assert((a + b)[a.len() + i] == x);
    }
}

/// Appending one segment keeps a coding ordered and bounded.
proof fn lemma_ordered_append(s: Seq<char>, flag: bool, c: char, m: int)
    requires
        code_ordered(s),
        code_bounded(s, m),
        alpha_index(c) == m,
    ensures
        code_ordered(s + seg(flag, c)),
        code_bounded(s + seg(flag, c), m + 1),
{
    let t = s + seg(flag, c);
    assert forall|i: int, j: int| 0 <= i < j < t.len() implies alpha_index(t[i]) < alpha_index(
        t[j],
    ) by {
        if j < s.len() {
            assert(t[i] == s[i] && t[j] == s[j]);
        } else {
            assert(t[j] == c);
            assert(t[i] == s[i]);
        }
    }
    assert forall|i: int| 0 <= i < t.len() implies alpha_index(t[i]) < m + 1 by {
        if i < s.len() {
            assert(t[i] == s[i]);
        } else {
            assert(t[i] == c);
        }
    }
}

/// Appends one capability letter to a coding under construction when its
/// flag is set.
fn append_letter(out: &mut String, flag: bool, letter: &str, Ghost(c): Ghost<char>)
    requires
        letter@ == seq![c],
    ensures
        final(out)@ == old(out)@ + seg(flag, c),
{
    if flag {
        out.append(letter);
    } else {
        proof {
            assert(old(out)@ + seg(flag, c) =~= old(out)@);
        }
    }
}

impl Authority {
    /// The letter coding of this capability set, in the fixed alphabet
    /// order X, W, S, A, B, C, E, P.
    pub open spec fn spec_code(self) -> Seq<char> {
        seg(self.executive, 'X') + seg(self.world_assembly, 'W') + seg(self.succession, 'S') + seg(
            self.appearance,
            'A',
        ) + seg(self.border_control, 'B') + seg(self.communications, 'C') + seg(
            self.embassies,
            'E',
        ) + seg(self.polls, 'P')
    }

    /// The capability set denoted by a letter-coded string: each flag is
    /// set exactly when its letter occurs anywhere in the string.
    pub open spec fn spec_decode(s: Seq<char>) -> Authority {
        Authority {
            executive: s.contains('X'),
            world_assembly: s.contains('W'),
            succession: s.contains('S'),
            appearance: s.contains('A'),
            border_control: s.contains('B'),
            communications: s.contains('C'),
            embassies: s.contains('E'),
            polls: s.contains('P'),
        }
    }

    /// Decodes a letter-coded capability string; letters outside the
    /// alphabet are ignored.
    pub fn from_code(value: &str) -> (r: Authority)
        ensures
            r == Authority::spec_decode(value@),
    {
        Authority {
            executive: str_contains_char(value, 'X'),
            world_assembly: str_contains_char(value, 'W'),
            succession: str_contains_char(value, 'S'),
            appearance: str_contains_char(value, 'A'),
            border_control: str_contains_char(value, 'B'),
            communications: str_contains_char(value, 'C'),
            embassies: str_contains_char(value, 'E'),
            polls: str_contains_char(value, 'P'),
        }
    }

    /// Encodes this capability set as its letter-coded string.
    pub fn to_code(&self) -> (r: String)
        ensures
            r@ == self.spec_code(),
    {
        let mut out = String::new();
        proof {
            reveal_strlit("X");
            reveal_strlit("W");
            reveal_strlit("S");
            reveal_strlit("A");
            reveal_strlit("B");
            reveal_strlit("C");
            reveal_strlit("E");
            reveal_strlit("P");
            assert("X"@ =~= seq!['X']);
            assert("W"@ =~= seq!['W']);
            assert("S"@ =~= seq!['S']);
            assert("A"@ =~= seq!['A']);
            assert("B"@ =~= seq!['B']);
            assert("C"@ =~= seq!['C']);
            assert("E"@ =~= seq!['E']);
            assert("P"@ =~= seq!['P']);
        }
        append_letter(&mut out, self.executive, "X", Ghost('X'));
        append_letter(&mut out, self.world_assembly, "W", Ghost('W'));
        append_letter(&mut out, self.succession, "S", Ghost('S'));
        append_letter(&mut out, self.appearance, "A", Ghost('A'));
        append_letter(&mut out, self.border_control, "B", Ghost('B'));
        append_letter(&mut out, self.communications, "C", Ghost('C'));
        append_letter(&mut out, self.embassies, "E", Ghost('E'));
        append_letter(&mut out, self.polls, "P", Ghost('P'));
        proof {
            assert(Seq::<char>::empty() + seg(self.executive, 'X') =~= seg(self.executive, 'X'));
        }
        out
    }

    pub fn executive(&self) -> (r: bool)
        ensures
            r == self.executive,
    {
        self.executive
    }

    pub fn succession(&self) -> (r: bool)
        ensures
            r == self.succession,
    {
        self.succession
    }

    pub fn appearance(&self) -> (r: bool)
        ensures
            r == self.appearance,
    {
        self.appearance
    }

    pub fn border_control(&self) -> (r: bool)
        ensures
            r == self.border_control,
    {
        self.border_control
    }

    pub fn communications(&self) -> (r: bool)
        ensures
            r == self.communications,
    {
        self.communications
    }

    pub fn embassies(&self) -> (r: bool)
        ensures
            r == self.embassies,
    {
        self.embassies
    }

    pub fn polls(&self) -> (r: bool)
        ensures
            r == self.polls,
    {
        self.polls
    }
}

/// A segment holds a character exactly when its flag is set and the
/// character is the segment's letter.
proof fn lemma_seg_contains(flag: bool, ch: char, c: char)
    ensures
        seg(flag, ch).contains(c) <==> (flag && c == ch),
{
    let s = seg(flag, ch);
    if flag {
        assert(s[0] == ch);
        if s.contains(c) {
            let i = choose|i: int| 0 <= i < s.len() && s[i] == c;
            assert(i == 0);
        }
        if c == ch {
            assert(s[0] == c);
        }
    } else {
        if s.contains(c) {
            let i = choose|i: int| 0 <= i < s.len() && s[i] == c;
            assert(false);
        }
    }
}

/// A letter occurs in a coding exactly when its capability is set.
pub proof fn lemma_code_contains(a: Authority, c: char)
    ensures
        a.spec_code().contains(c) <==> ((a.executive && c == 'X') || (a.world_assembly && c == 'W')
            || (a.succession && c == 'S') || (a.appearance && c == 'A') || (a.border_control && c
            == 'B') || (a.communications && c == 'C') || (a.embassies && c == 'E') || (a.polls && c
            == 'P')),
{
    let s1 = seg(a.executive, 'X');
    let s2 = seg(a.world_assembly, 'W');
    let s3 = seg(a.succession, 'S');
    let s4 = seg(a.appearance, 'A');
    let s5 = seg(a.border_control, 'B');
    let s6 = seg(a.communications, 'C');
    let s7 = seg(a.embassies, 'E');
    let s8 = seg(a.polls, 'P');
    lemma_contains_add(s1 + s2 + s3 + s4 + s5 + s6 + s7, s8, c);
    lemma_contains_add(s1 + s2 + s3 + s4 + s5 + s6, s7, c);
    lemma_contains_add(s1 + s2 + s3 + s4 + s5, s6, c);
    lemma_contains_add(s1 + s2 + s3 + s4, s5, c);
    lemma_contains_add(s1 + s2 + s3, s4, c);
    lemma_contains_add(s1 + s2, s3, c);
    lemma_contains_add(s1, s2, c);
    lemma_seg_contains(a.executive, 'X', c);
    lemma_seg_contains(a.world_assembly, 'W', c);
    lemma_seg_contains(a.succession, 'S', c);
    lemma_seg_contains(a.appearance, 'A', c);
    lemma_seg_contains(a.border_control, 'B', c);
    lemma_seg_contains(a.communications, 'C', c);
    lemma_seg_contains(a.embassies, 'E', c);
    lemma_seg_contains(a.polls, 'P', c);
}

/// Decoding the letter coding of any capability set reproduces the set.
pub proof fn lemma_authority_round_trip(a: Authority)
    ensures
        Authority::spec_decode(a.spec_code()) == a,
{
    lemma_code_contains(a, 'X');
    lemma_code_contains(a, 'W');
    lemma_code_contains(a, 'S');
    lemma_code_contains(a, 'A');
    lemma_code_contains(a, 'B');
    lemma_code_contains(a, 'C');
    lemma_code_contains(a, 'E');
    lemma_code_contains(a, 'P');
}

/// The letter coding always emits letters in the fixed alphabet order.
pub proof fn lemma_code_ordered(a: Authority)
    ensures
        code_ordered(a.spec_code()),
{
    let s1 = seg(a.executive, 'X');
    let s2 = seg(a.world_assembly, 'W');
    let s3 = seg(a.succession, 'S');
    let s4 = seg(a.appearance, 'A');
    let s5 = seg(a.border_control, 'B');
    let s6 = seg(a.communications, 'C');
    let s7 = seg(a.embassies, 'E');
    let s8 = seg(a.polls, 'P');
    assert(code_ordered(s1) && code_bounded(s1, 1));
    lemma_ordered_append(s1, a.world_assembly, 'W', 1);
    lemma_ordered_append(s1 + s2, a.succession, 'S', 2);
    lemma_ordered_append(s1 + s2 + s3, a.appearance, 'A', 3);
    lemma_ordered_append(s1 + s2 + s3 + s4, a.border_control, 'B', 4);
    lemma_ordered_append(s1 + s2 + s3 + s4 + s5, a.communications, 'C', 5);
    lemma_ordered_append(s1 + s2 + s3 + s4 + s5 + s6, a.embassies, 'E', 6);
    lemma_ordered_append(s1 + s2 + s3 + s4 + s5 + s6 + s7, a.polls, 'P', 7);
}

/// The status of an embassy, from a fixed closed vocabulary.
#[derive(Clone, Copy, PartialEq, Eq, Structural, Debug)]
pub enum EmbassyStatus {
    Open,
    Pending,
    Closing,
    Invited,
    Requested,
    Rejected,
    Denied,
}

impl EmbassyStatus {
    /// The status denoted by a raw status string; anything outside the
    /// vocabulary means `Open`.
    pub open spec fn spec_from_code(s: Seq<char>) -> EmbassyStatus {
        if s == "pending"@ {
            EmbassyStatus::Pending
        } else if s == "closing"@ {
            EmbassyStatus::Closing
        } else if s == "invited"@ {
            EmbassyStatus::Invited
        } else if s == "requested"@ {
            EmbassyStatus::Requested
        } else if s == "rejected"@ {
            EmbassyStatus::Rejected
        } else if s == "denied"@ {
            EmbassyStatus::Denied
        } else {
            EmbassyStatus::Open
        }
    }

    /// Maps a raw status string through the fixed vocabulary; unmapped
    /// values default to `Open`.
    pub fn from_code(value: &str) -> (r: EmbassyStatus)
        ensures
            r == EmbassyStatus::spec_from_code(value@),
    {
        if str_eq(value, "pending") {
            EmbassyStatus::Pending
        } else if str_eq(value, "closing") {
            EmbassyStatus::Closing
        } else if str_eq(value, "invited") {
            EmbassyStatus::Invited
        } else if str_eq(value, "requested") {
            EmbassyStatus::Requested
        } else if str_eq(value, "rejected") {
            EmbassyStatus::Rejected
        } else if str_eq(value, "denied") {
            EmbassyStatus::Denied
        } else {
            EmbassyStatus::Open
        }
    }

    /// An active embassy may satisfy embassy rules; one that is closing,
    /// rejected, or denied never does.
    pub open spec fn spec_is_active(self) -> bool {
        self != EmbassyStatus::Closing && self != EmbassyStatus::Rejected && self
            != EmbassyStatus::Denied
    }

    /// Whether an embassy with this status counts as active.
    pub fn is_active(&self) -> (r: bool)
        ensures
            r == self.spec_is_active(),
    {
        !(*self == EmbassyStatus::Closing || *self == EmbassyStatus::Rejected || *self
            == EmbassyStatus::Denied)
    }
}

/// An embassy of a territory record: the partner territory's name and the
/// embassy's status.
#[derive(Debug)]
pub struct Embassy {
    pub region: String,
    pub status: EmbassyStatus,
}

impl Embassy {
    pub fn region(&self) -> (r: &str)
        ensures
            r@ == self.region@,
    {
        self.region.as_str()
    }

    pub fn status(&self) -> (r: &EmbassyStatus)
        ensures
            *r == self.status,
    {
        &self.status
    }
}

/// An officer of a territory record.
#[derive(Debug)]
pub struct Officer {
    pub name: String,
    pub office: String,
    pub authority: Authority,
    pub time: i64,
    pub appointer: String,
}

impl Officer {
    pub fn name(&self) -> (r: &str)
        ensures
            r@ == self.name@,
    {
        self.name.as_str()
    }

    pub fn office(&self) -> (r: &str)
        ensures
            r@ == self.office@,
    {
        self.office.as_str()
    }

    pub fn authority(&self) -> (r: &Authority)
        ensures
            *r == self.authority,
    {
        &self.authority
    }

    pub fn time(&self) -> (r: i64)
        ensures
            r == self.time,
    {
        self.time
    }

    pub fn appointer(&self) -> (r: &str)
        ensures
            r@ == self.appointer@,
    {
        self.appointer.as_str()
    }
}

/// A fully assembled, immutable territory record.
#[derive(Debug)]
pub struct Region {
    pub name: String,
    pub factbook: String,
    pub population: i32,
    pub delegate: Option<String>,
    pub delegate_votes: i32,
    pub delegate_auth: Authority,
    pub frontier: bool,
    pub governor: Option<String>,
    pub last_major: i64,
    pub last_minor: i64,
    pub officers: Vec<Officer>,
    pub embassies: Vec<Embassy>,
}

impl Region {
    pub fn name(&self) -> (r: &str)
        ensures
            r@ == self.name@,
    {
        self.name.as_str()
    }

    pub fn factbook(&self) -> (r: &str)
        ensures
            r@ == self.factbook@,
    {
        self.factbook.as_str()
    }

    pub fn population(&self) -> (r: i32)
        ensures
            r == self.population,
    {
        self.population
    }

    pub fn delegate(&self) -> (r: Option<&str>)
        ensures
            r is Some <==> self.delegate is Some,
            r matches Some(d) ==> d@ == self.delegate->0@,
    {
        match &self.delegate {
            Some(d) => Some(d.as_str()),
            None => None,
        }
    }

    pub fn delegate_votes(&self) -> (r: i32)
        ensures
            r == self.delegate_votes,
    {
        self.delegate_votes
    }

    pub fn delegate_auth(&self) -> (r: &Authority)
        ensures
            *r == self.delegate_auth,
    {
        &self.delegate_auth
    }

    pub fn frontier(&self) -> (r: bool)
        ensures
            r == self.frontier,
    {
        self.frontier
    }

    pub fn governor(&self) -> (r: Option<&str>)
        ensures
            r is Some <==> self.governor is Some,
            r matches Some(g) ==> g@ == self.governor->0@,
    {
        match &self.governor {
            Some(g) => Some(g.as_str()),
            None => None,
        }
    }

    pub fn last_major(&self) -> (r: i64)
        ensures
            r == self.last_major,
    {
        self.last_major
    }

    pub fn last_minor(&self) -> (r: i64)
        ensures
            r == self.last_minor,
    {
        self.last_minor
    }

    pub fn officers(&self) -> (r: &[Officer])
        ensures
            r@ == self.officers@,
    {
        self.officers.as_slice()
    }

    pub fn embassies(&self) -> (r: &[Embassy])
        ensures
            r@ == self.embassies@,
    {
        self.embassies.as_slice()
    }
}

/// A draft of a [`Region`]: fields filled incrementally during assembly
/// and validated once when the record's closing boundary is reached.
///
/// Unlike typical builders, the methods of a draft do not return a
/// reference to the draft itself, and cannot be chained.
#[derive(Debug)]
pub struct RegionBuilder {
    pub name: Option<String>,
    pub factbook: Option<String>,
    pub population: Option<i32>,
    pub delegate: Option<String>,
    pub delegate_votes: Option<i32>,
    pub delegate_auth: Option<Authority>,
    pub frontier: Option<bool>,
    pub governor: Option<String>,
    pub last_major: Option<i64>,
    pub last_minor: Option<i64>,
    pub officers: Vec<Officer>,
    pub embassies: Vec<Embassy>,
}

impl Default for RegionBuilder {
    /// An empty draft: no field set, no officers, no embassies.
    fn default() -> (r: Self)
        ensures
            r.is_reset(),
    {
        RegionBuilder {
            name: None,
            factbook: None,
            population: None,
            delegate: None,
            delegate_votes: None,
            delegate_auth: None,
            frontier: None,
            governor: None,
            last_major: None,
            last_minor: None,
            officers: Vec::new(),
            embassies: Vec::new(),
        }
    }
}

/// The error names the given missing field on the given record kind.
pub open spec fn is_missing_field(e: Error, f: Seq<char>, kind: Seq<char>) -> bool {
    e matches Error::Builder { field, model } && field@ == f && model@ == kind
}

/// `post` is `pre` with one finalized officer appended and nothing else
/// changed.
pub open spec fn officer_appended(pre: RegionBuilder, post: RegionBuilder, o: Officer) -> bool {
    &&& post.officers@ == pre.officers@.push(o)
    &&& post.name == pre.name
    &&& post.factbook == pre.factbook
    &&& post.population == pre.population
    &&& post.delegate == pre.delegate
    &&& post.delegate_votes == pre.delegate_votes
    &&& post.delegate_auth == pre.delegate_auth
    &&& post.frontier == pre.frontier
    &&& post.governor == pre.governor
    &&& post.last_major == pre.last_major
    &&& post.last_minor == pre.last_minor
    &&& post.embassies == pre.embassies
}

/// `post` is `pre` with one finalized embassy appended and nothing else
/// changed.
pub open spec fn embassy_appended(pre: RegionBuilder, post: RegionBuilder, e: Embassy) -> bool {
    &&& post.embassies@ == pre.embassies@.push(e)
    &&& post.name == pre.name
    &&& post.factbook == pre.factbook
    &&& post.population == pre.population
    &&& post.delegate == pre.delegate
    &&& post.delegate_votes == pre.delegate_votes
    &&& post.delegate_auth == pre.delegate_auth
    &&& post.frontier == pre.frontier
    &&& post.governor == pre.governor
    &&& post.last_major == pre.last_major
    &&& post.last_minor == pre.last_minor
    &&& post.officers == pre.officers
}

impl RegionBuilder {
    /// No field set, no officers, no embassies.
    pub open spec fn is_reset(self) -> bool {
        &&& self.name is None
        &&& self.factbook is None
        &&& self.population is None
        &&& self.delegate is None
        &&& self.delegate_votes is None
        &&& self.delegate_auth is None
        &&& self.frontier is None
        &&& self.governor is None
        &&& self.last_major is None
        &&& self.last_minor is None
        &&& self.officers@.len() == 0
        &&& self.embassies@.len() == 0
    }

    /// The record this draft finalizes to once every required field is set.
    pub open spec fn spec_built(self) -> Region {
        Region {
            name: self.name->0,
            factbook: self.factbook->0,
            population: self.population->0,
            delegate: self.delegate,
            delegate_votes: self.delegate_votes->0,
            delegate_auth: self.delegate_auth->0,
            frontier: self.frontier->0,
            governor: self.governor,
            last_major: self.last_major->0,
            last_minor: self.last_minor->0,
            officers: self.officers,
            embassies: self.embassies,
        }
    }

    /// The first required field still unset, in validation order, if any.
    pub open spec fn first_missing(self) -> Option<Seq<char>> {
        if self.name is None {
            Some("name"@)
        } else if self.factbook is None {
            Some("factbook"@)
        } else if self.population is None {
            Some("population"@)
        } else if self.delegate_votes is None {
            Some("delegate_votes"@)
        } else if self.delegate_auth is None {
            Some("delegate_auth"@)
        } else if self.frontier is None {
            Some("frontier"@)
        } else if self.last_major is None {
            Some("last_major"@)
        } else if self.last_minor is None {
            Some("last_minor"@)
        } else {
            None
        }
    }

    pub fn name(&mut self, name: String)
        ensures
            *final(self) == (RegionBuilder { name: Some(name), ..*old(self) }),
    {
        self.name = Some(name);
    }

    pub fn factbook(&mut self, entry: String)
        ensures
            *final(self) == (RegionBuilder { factbook: Some(entry), ..*old(self) }),
    {
        self.factbook = Some(entry);
    }

    pub fn population(&mut self, population: i32)
        ensures
            *final(self) == (RegionBuilder { population: Some(population), ..*old(self) }),
    {
        self.population = Some(population);
    }

    pub fn delegate(&mut self, delegate: String)
        ensures
            *final(self) == (RegionBuilder { delegate: Some(delegate), ..*old(self) }),
    {
        self.delegate = Some(delegate);
    }

    pub fn delegate_votes(&mut self, votes: i32)
        ensures
            *final(self) == (RegionBuilder { delegate_votes: Some(votes), ..*old(self) }),
    {
        self.delegate_votes = Some(votes);
    }

    pub fn delegate_auth(&mut self, authority: Authority)
        ensures
            *final(self) == (RegionBuilder { delegate_auth: Some(authority), ..*old(self) }),
    {
        self.delegate_auth = Some(authority);
    }

    pub fn frontier(&mut self, frontier: bool)
        ensures
            *final(self) == (RegionBuilder { frontier: Some(frontier), ..*old(self) }),
    {
        self.frontier = Some(frontier);
    }

    pub fn governor(&mut self, governor: String)
        ensures
            *final(self) == (RegionBuilder { governor: Some(governor), ..*old(self) }),
    {
        self.governor = Some(governor);
    }

    pub fn last_major(&mut self, last_major: i64)
        ensures
            *final(self) == (RegionBuilder { last_major: Some(last_major), ..*old(self) }),
    {
        self.last_major = Some(last_major);
    }

    pub fn last_minor(&mut self, last_minor: i64)
        ensures
            *final(self) == (RegionBuilder { last_minor: Some(last_minor), ..*old(self) }),
    {
        self.last_minor = Some(last_minor);
    }

    /// Appends a finalized officer to the draft.
    pub fn officer(&mut self, officer: Officer)
        ensures
            officer_appended(*old(self), *final(self), officer),
    {
        self.officers.push(officer);
    }

    /// Appends a finalized embassy to the draft.
    pub fn embassy(&mut self, embassy: Embassy)
        ensures
            embassy_appended(*old(self), *final(self), embassy),
    {
        self.embassies.push(embassy);
    }

    /// Validates the draft at the record's closing boundary. On success the
    /// draft is consumed and reset; on failure the error names the first
    /// missing required field and the draft is left untouched.
    pub fn build(&mut self) -> (r: Result<Region, Error>)
        ensures
            r is Ok <==> old(self).first_missing() is None,
            r matches Ok(region) ==> region == old(self).spec_built() && final(self).is_reset(),
            r matches Err(e) ==> {
                &&& old(self).first_missing() matches Some(f) && is_missing_field(e, f, "region"@)
                &&& *final(self) == *old(self)
            },
    {
        if self.name.is_none() {
            return Err(Error::Builder { field: "name", model: "region" });
        }
        if self.factbook.is_none() {
            return Err(Error::Builder { field: "factbook", model: "region" });
        }
        if self.population.is_none() {
            return Err(Error::Builder { field: "population", model: "region" });
        }
        if self.delegate_votes.is_none() {
            return Err(Error::Builder { field: "delegate_votes", model: "region" });
        }
        if self.delegate_auth.is_none() {
            return Err(Error::Builder { field: "delegate_auth", model: "region" });
        }
        if self.frontier.is_none() {
            return Err(Error::Builder { field: "frontier", model: "region" });
        }
        if self.last_major.is_none() {
            return Err(Error::Builder { field: "last_major", model: "region" });
        }
        if self.last_minor.is_none() {
            return Err(Error::Builder { field: "last_minor", model: "region" });
        }
        let mut officers: Vec<Officer> = Vec::new();
        let mut embassies: Vec<Embassy> = Vec::new();
        core::mem::swap(&mut officers, &mut self.officers);
        core::mem::swap(&mut embassies, &mut self.embassies);
        Ok(
            Region {
                name: self.name.take().unwrap(),
                factbook: self.factbook.take().unwrap(),
                population: self.population.take().unwrap(),
                delegate: self.delegate.take(),
                delegate_votes: self.delegate_votes.take().unwrap(),
                delegate_auth: self.delegate_auth.take().unwrap(),
                frontier: self.frontier.take().unwrap(),
                governor: self.governor.take(),
                last_major: self.last_major.take().unwrap(),
                last_minor: self.last_minor.take().unwrap(),
                officers,
                embassies,
            },
        )
    }
}

/// A draft of an [`Officer`].
#[derive(Debug)]
pub struct OfficerBuilder {
    pub name: Option<String>,
    pub office: Option<String>,
    pub authority: Option<Authority>,
    pub time: Option<i64>,
    pub appointer: Option<String>,
}

impl Default for OfficerBuilder {
    /// An empty draft with no field set.
    fn default() -> (r: Self)
        ensures
            r.is_reset(),
    {
        OfficerBuilder { name: None, office: None, authority: None, time: None, appointer: None }
    }
}

impl OfficerBuilder {
    /// No field set.
    pub open spec fn is_reset(self) -> bool {
        &&& self.name is None
        &&& self.office is None
        &&& self.authority is None
        &&& self.time is None
        &&& self.appointer is None
    }

    /// The officer this draft finalizes to once every required field is set.
    pub open spec fn spec_built(self) -> Officer {
        Officer {
            name: self.name->0,
            office: self.office->0,
            authority: self.authority->0,
            time: self.time->0,
            appointer: self.appointer->0,
        }
    }

    /// The first required field still unset, in validation order, if any.
    pub open spec fn first_missing(self) -> Option<Seq<char>> {
        if self.name is None {
            Some("name"@)
        } else if self.office is None {
            Some("office"@)
        } else if self.authority is None {
            Some("authority"@)
        } else if self.time is None {
            Some("time"@)
        } else if self.appointer is None {
            Some("appointer"@)
        } else {
            None
        }
    }

    pub fn name(&mut self, name: String)
        ensures
            *final(self) == (OfficerBuilder { name: Some(name), ..*old(self) }),
    {
        self.name = Some(name);
    }

    pub fn office(&mut self, office: String)
        ensures
            *final(self) == (OfficerBuilder { office: Some(office), ..*old(self) }),
    {
        self.office = Some(office);
    }

    pub fn authority(&mut self, authority: Authority)
        ensures
            *final(self) == (OfficerBuilder { authority: Some(authority), ..*old(self) }),
    {
        self.authority = Some(authority);
    }

    pub fn time(&mut self, time: i64)
        ensures
            *final(self) == (OfficerBuilder { time: Some(time), ..*old(self) }),
    {
        self.time = Some(time);
    }

    pub fn appointer(&mut self, appointer: String)
        ensures
            *final(self) == (OfficerBuilder { appointer: Some(appointer), ..*old(self) }),
    {
        self.appointer = Some(appointer);
    }

    /// Validates the draft at the officer's closing boundary.
    pub fn build(&mut self) -> (r: Result<Officer, Error>)
        ensures
            r is Ok <==> old(self).first_missing() is None,
            r matches Ok(officer) ==> officer == old(self).spec_built() && final(self).is_reset(),
            r matches Err(e) ==> {
                &&& old(self).first_missing() matches Some(f) && is_missing_field(e, f, "officer"@)
                &&& *final(self) == *old(self)
            },
    {
        if self.name.is_none() {
            return Err(Error::Builder { field: "name", model: "officer" });
        }
        if self.office.is_none() {
            return Err(Error::Builder { field: "office", model: "officer" });
        }
        if self.authority.is_none() {
            return Err(Error::Builder { field: "authority", model: "officer" });
        }
        if self.time.is_none() {
            return Err(Error::Builder { field: "time", model: "officer" });
        }
        if self.appointer.is_none() {
            return Err(Error::Builder { field: "appointer", model: "officer" });
        }
        Ok(
            Officer {
                name: self.name.take().unwrap(),
                office: self.office.take().unwrap(),
                authority: self.authority.take().unwrap(),
                time: self.time.take().unwrap(),
                appointer: self.appointer.take().unwrap(),
            },
        )
    }
}

/// A draft of an [`Embassy`].
#[derive(Debug)]
pub struct EmbassyBuilder {
    pub region: Option<String>,
    pub status: Option<EmbassyStatus>,
}

impl Default for EmbassyBuilder {
    /// An empty draft with no field set.
    fn default() -> (r: Self)
        ensures
            r.is_reset(),
    {
        EmbassyBuilder { region: None, status: None }
    }
}

impl EmbassyBuilder {
    /// No field set.
    pub open spec fn is_reset(self) -> bool {
        self.region is None && self.status is None
    }

    /// The embassy this draft finalizes to once every required field is set.
    pub open spec fn spec_built(self) -> Embassy {
        Embassy { region: self.region->0, status: self.status->0 }
    }

    /// The first required field still unset, in validation order, if any.
    pub open spec fn first_missing(self) -> Option<Seq<char>> {
        if self.region is None {
            Some("region"@)
        } else if self.status is None {
            Some("status"@)
        } else {
            None
        }
    }

    pub fn region(&mut self, value: String)
        ensures
            *final(self) == (EmbassyBuilder { region: Some(value), ..*old(self) }),
    {
        self.region = Some(value);
    }

    pub fn status(&mut self, value: EmbassyStatus)
        ensures
            *final(self) == (EmbassyBuilder { status: Some(value), ..*old(self) }),
    {
        self.status = Some(value);
    }

    /// Validates the draft at the embassy's closing boundary.
    pub fn build(&mut self) -> (r: Result<Embassy, Error>)
        ensures
            r is Ok <==> old(self).first_missing() is None,
            r matches Ok(embassy) ==> embassy == old(self).spec_built() && final(self).is_reset(),
            r matches Err(e) ==> {
                &&& old(self).first_missing() matches Some(f) && is_missing_field(e, f, "embassy"@)
                &&& *final(self) == *old(self)
            },
    {
        if self.region.is_none() {
            return Err(Error::Builder { field: "region", model: "embassy" });
        }
        if self.status.is_none() {
            return Err(Error::Builder { field: "status", model: "embassy" });
        }
        Ok(Embassy { region: self.region.take().unwrap(), status: self.status.take().unwrap() })
    }
}

} // verus!
