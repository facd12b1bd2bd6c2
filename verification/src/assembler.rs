//! The record assembler: a tag-scoped state machine that consumes a
//! stream of structural events and incrementally fills drafts for a
//! territory record and its nested officer and embassy sub-records,
//! finalizing each draft at its closing boundary.
//!
//! The token source itself (decompression and tokenization) is an external
//! collaborator: a caller turns its output into [`Event`] values and feeds
//! them to [`Assembler::step`] one at a time. After `step` yields an error
//! outcome the stream should be abandoned: no resynchronization to the
//! next record boundary is attempted.

use vstd::prelude::*;

use crate::error::Error;
use crate::models::{
    is_missing_field, officer_appended, embassy_appended, Authority, Embassy, EmbassyBuilder,
    EmbassyStatus, Officer, OfficerBuilder, Region, RegionBuilder,
};
use crate::text::{parse_i32, parse_i64, str_eq, spec_int_val, valid_int_str};

verus! {

/// One structural event of the token stream, already decoded to plain
/// values: an element boundary, text content, a raw character-data block,
/// or the end of the input. An opening boundary carries the value of its
/// optional `type` attribute.
pub enum Event {
    Start { name: String, type_attr: Option<String> },
    End { name: String },
    Text { content: String },
    CData { content: String },
    Eof,
}

/// The assembler's state: the currently open field context and the three
/// drafts that receive field updates.
pub struct Assembler {
    pub current_tag: Option<String>,
    pub current_type_attr: Option<String>,
    pub region: RegionBuilder,
    pub officer: OfficerBuilder,
    pub embassy: EmbassyBuilder,
}

/// The field context after a closing boundary: cleared when the boundary
/// matches the open tag, otherwise kept.
pub open spec fn end_tag(tag: Option<String>, name: Seq<char>) -> Option<String> {
    if tag matches Some(t) && t@ == name {
        None
    } else {
        tag
    }
}

/// The pending attribute value after a closing boundary: cleared together
/// with the field context.
pub open spec fn end_attr(tag: Option<String>, attr: Option<String>, name: Seq<char>) -> Option<
    String,
> {
    if tag matches Some(t) && t@ == name {
        None
    } else {
        attr
    }
}

/// The embassy status denoted by an optional `type` attribute: absent
/// means open.
pub open spec fn attr_status(attr: Option<String>) -> EmbassyStatus {
    match attr {
        Some(v) => EmbassyStatus::spec_from_code(v@),
        None => EmbassyStatus::Open,
    }
}

/// `post` is `pre` with only the region draft replaced.
pub open spec fn region_updated(pre: Assembler, post: Assembler, rb: RegionBuilder) -> bool {
    post == (Assembler { region: rb, ..pre })
}

/// `post` is `pre` with only the officer draft replaced.
pub open spec fn officer_updated(pre: Assembler, post: Assembler, ob: OfficerBuilder) -> bool {
    post == (Assembler { officer: ob, ..pre })
}

/// What one opening boundary does: it records the new field context and
/// its pending attribute, and touches no draft.
pub open spec fn spec_start_step(
    pre: Assembler,
    name: String,
    type_attr: Option<String>,
    post: Assembler,
    out: Option<Result<Region, Error>>,
) -> bool {
    &&& post == (Assembler { current_tag: Some(name), current_type_attr: type_attr, ..pre })
    &&& out is None
}

/// What one closing boundary does: the matching field context is cleared;
/// a record boundary finalizes the territory draft and yields it, an
/// officer or embassy boundary finalizes its draft into the enclosing
/// territory draft, and a failed finalization is surfaced as the outcome.
pub open spec fn spec_end_step(
    pre: Assembler,
    name: String,
    post: Assembler,
    out: Option<Result<Region, Error>>,
) -> bool {
    &&& post.current_tag == end_tag(pre.current_tag, name@)
    &&& post.current_type_attr == end_attr(pre.current_tag, pre.current_type_attr, name@)
    &&& if name@ == "REGION"@ {
        &&& post.region.is_reset()
        &&& post.officer.is_reset()
        &&& post.embassy.is_reset()
        &&& match pre.region.first_missing() {
            None => out == Some(Ok::<Region, Error>(pre.region.spec_built())),
            Some(f) => out matches Some(Err(e)) && is_missing_field(e, f, "region"@),
        }
    } else if name@ == "OFFICER"@ {
        match pre.officer.first_missing() {
            None => {
                &&& out is None
                &&& post.officer.is_reset()
                &&& officer_appended(pre.region, post.region, pre.officer.spec_built())
                &&& post.embassy == pre.embassy
            },
            Some(f) => {
                &&& out matches Some(Err(e)) && is_missing_field(e, f, "officer"@)
                &&& post.region == pre.region
                &&& post.officer == pre.officer
                &&& post.embassy == pre.embassy
            },
        }
    } else if name@ == "EMBASSY"@ {
        match pre.embassy.first_missing() {
            None => {
                &&& out is None
                &&& post.embassy.is_reset()
                &&& embassy_appended(pre.region, post.region, pre.embassy.spec_built())
                &&& post.officer == pre.officer
            },
            Some(f) => {
                &&& out matches Some(Err(e)) && is_missing_field(e, f, "embassy"@)
                &&& post.region == pre.region
                &&& post.officer == pre.officer
                &&& post.embassy == pre.embassy
            },
        }
    } else {
        &&& out is None
        &&& post.region == pre.region
        &&& post.officer == pre.officer
        &&& post.embassy == pre.embassy
    }
}

/// What one text event does, as routed by the open field context: numeric
/// fields are parsed as integers, the optional delegate and governor
/// fields treat the literal "0" as absent, the frontier flag uses the
/// sentinels "1" and "0", capability fields are decoded letter by letter,
/// and an embassy boundary's text names the partner while its pending
/// attribute fixes the status. Text under no open tag, or under a tag
/// that names no field, is ignored.
pub open spec fn spec_text_step(
    pre: Assembler,
    content: String,
    post: Assembler,
    out: Option<Result<Region, Error>>,
) -> bool {
    match pre.current_tag {
        None => post == pre && out is None,
        Some(t) => {
            if t@ == "NAME"@ {
                &&& region_updated(pre, post, RegionBuilder { name: Some(content), ..pre.region })
                &&& out is None
            } else if t@ == "NUMNATIONS"@ {
                if valid_int_str(content@) && i32::MIN <= spec_int_val(content@) <= i32::MAX {
                    &&& region_updated(
                        pre,
                        post,
                        RegionBuilder {
                            population: Some(spec_int_val(content@) as i32),
                            ..pre.region
                        },
                    )
                    &&& out is None
                } else {
                    &&& post == pre
                    &&& out matches Some(Err(e)) && e is Parse
                }
            } else if t@ == "DELEGATE"@ {
                if content@ == "0"@ {
                    post == pre && out is None
                } else {
                    &&& region_updated(
                        pre,
                        post,
                        RegionBuilder { delegate: Some(content), ..pre.region },
                    )
                    &&& out is None
                }
            } else if t@ == "DELEGATEVOTES"@ {
                if valid_int_str(content@) && i32::MIN <= spec_int_val(content@) <= i32::MAX {
                    &&& region_updated(
                        pre,
                        post,
                        RegionBuilder {
                            delegate_votes: Some(spec_int_val(content@) as i32),
                            ..pre.region
                        },
                    )
                    &&& out is None
                } else {
                    &&& post == pre
                    &&& out matches Some(Err(e)) && e is Parse
                }
            } else if t@ == "DELEGATEAUTH"@ {
                &&& region_updated(
                    pre,
                    post,
                    RegionBuilder {
                        delegate_auth: Some(Authority::spec_decode(content@)),
                        ..pre.region
                    },
                )
                &&& out is None
            } else if t@ == "FRONTIER"@ {
                if content@ == "1"@ {
                    &&& region_updated(
                        pre,
                        post,
                        RegionBuilder { frontier: Some(true), ..pre.region },
                    )
                    &&& out is None
                } else if content@ == "0"@ {
                    &&& region_updated(
                        pre,
                        post,
                        RegionBuilder { frontier: Some(false), ..pre.region },
                    )
                    &&& out is None
                } else {
                    post == pre && out is None
                }
            } else if t@ == "GOVERNOR"@ {
                if content@ == "0"@ {
                    post == pre && out is None
                } else {
                    &&& region_updated(
                        pre,
                        post,
                        RegionBuilder { governor: Some(content), ..pre.region },
                    )
                    &&& out is None
                }
            } else if t@ == "LASTMAJORUPDATE"@ {
                if valid_int_str(content@) && i64::MIN <= spec_int_val(content@) <= i64::MAX {
                    &&& region_updated(
                        pre,
                        post,
                        RegionBuilder {
                            last_major: Some(spec_int_val(content@) as i64),
                            ..pre.region
                        },
                    )
                    &&& out is None
                } else {
                    &&& post == pre
                    &&& out matches Some(Err(e)) && e is Parse
                }
            } else if t@ == "LASTMINORUPDATE"@ {
                if valid_int_str(content@) && i64::MIN <= spec_int_val(content@) <= i64::MAX {
                    &&& region_updated(
                        pre,
                        post,
                        RegionBuilder {
                            last_minor: Some(spec_int_val(content@) as i64),
                            ..pre.region
                        },
                    )
                    &&& out is None
                } else {
                    &&& post == pre
                    &&& out matches Some(Err(e)) && e is Parse
                }
            } else if t@ == "NATION"@ {
                &&& officer_updated(
                    pre,
                    post,
                    OfficerBuilder { name: Some(content), ..pre.officer },
                )
                &&& out is None
            } else if t@ == "OFFICE"@ {
                &&& officer_updated(
                    pre,
                    post,
                    OfficerBuilder { office: Some(content), ..pre.officer },
                )
                &&& out is None
            } else if t@ == "AUTHORITY"@ {
                &&& officer_updated(
                    pre,
                    post,
                    OfficerBuilder {
                        authority: Some(Authority::spec_decode(content@)),
                        ..pre.officer
                    },
                )
                &&& out is None
            } else if t@ == "TIME"@ {
                if valid_int_str(content@) && i64::MIN <= spec_int_val(content@) <= i64::MAX {
                    &&& officer_updated(
                        pre,
                        post,
                        OfficerBuilder { time: Some(spec_int_val(content@) as i64), ..pre.officer },
                    )
                    &&& out is None
                } else {
                    &&& post == pre
                    &&& out matches Some(Err(e)) && e is Parse
                }
            } else if t@ == "BY"@ {
                &&& officer_updated(
                    pre,
                    post,
                    OfficerBuilder { appointer: Some(content), ..pre.officer },
                )
                &&& out is None
            } else if t@ == "EMBASSY"@ {
                &&& post == (Assembler {
                    embassy: EmbassyBuilder {
                        region: Some(content),
                        status: Some(attr_status(pre.current_type_attr)),
                    },
                    ..pre
                })
                &&& out is None
            } else {
                post == pre && out is None
            }
        },
    }
}

/// What one character-data block does: it fills the descriptive text when
/// that field's tag is open, replacing any previous value, and is ignored
/// otherwise.
pub open spec fn spec_cdata_step(
    pre: Assembler,
    content: String,
    post: Assembler,
    out: Option<Result<Region, Error>>,
) -> bool {
    if pre.current_tag matches Some(t) && t@ == "FACTBOOK"@ {
        &&& region_updated(pre, post, RegionBuilder { factbook: Some(content), ..pre.region })
        &&& out is None
    } else {
        post == pre && out is None
    }
}

impl Assembler {
    /// A fresh assembler: no open field context, empty drafts.
    pub fn new() -> (r: Assembler)
        ensures
            r.current_tag is None,
            r.current_type_attr is None,
            r.region.is_reset(),
            r.officer.is_reset(),
            r.embassy.is_reset(),
    {
        Assembler {
            current_tag: None,
            current_type_attr: None,
            region: RegionBuilder::default(),
            officer: OfficerBuilder::default(),
            embassy: EmbassyBuilder::default(),
        }
    }

    /// Consumes one structural event. The outcome is a fully validated
    /// record when the event closed a record boundary, an error when
    /// finalization or field parsing failed, and nothing otherwise; the
    /// end of the input changes nothing.
    pub fn step(&mut self, event: Event) -> (out: Option<Result<Region, Error>>)
        ensures
            match event {
                Event::Start { name, type_attr } => spec_start_step(
                    *old(self),
                    name,
                    type_attr,
                    *final(self),
                    out,
                ),
                Event::End { name } => spec_end_step(*old(self), name, *final(self), out),
                Event::Text { content } => spec_text_step(*old(self), content, *final(self), out),
                Event::CData { content } => spec_cdata_step(
                    *old(self),
                    content,
                    *final(self),
                    out,
                ),
                Event::Eof => *final(self) == *old(self) && out is None,
            },
    {
        match event {
            Event::Start { name, type_attr } => {
                self.current_tag = Some(name);
                self.current_type_attr = type_attr;
                None
            },
            Event::End { name } => self.handle_end(name),
            Event::Text { content } => self.handle_text(content),
            Event::CData { content } => {
                let is_factbook = match &self.current_tag {
                    Some(t) => str_eq(t.as_str(), "FACTBOOK"),
                    None => false,
                };
                if is_factbook {
                    self.region.factbook(content);
                }
                None
            },
            Event::Eof => None,
        }
    }

    /// Handles a closing boundary: see [`spec_end_step`].
    fn handle_end(&mut self, name: String) -> (out: Option<Result<Region, Error>>)
        ensures
            spec_end_step(*old(self), name, *final(self), out),
    {
        let clears = match &self.current_tag {
            Some(t) => str_eq(t.as_str(), name.as_str()),
            None => false,
        };
        if clears {
            self.current_tag = None;
            self.current_type_attr = None;
        }
        if str_eq(name.as_str(), "REGION") {
            let built = self.region.build();
            self.region = RegionBuilder::default();
            self.officer = OfficerBuilder::default();
            self.embassy = EmbassyBuilder::default();
            Some(built)
        } else if str_eq(name.as_str(), "OFFICER") {
            match self.officer.build() {
                Ok(officer) => {
                    self.region.officer(officer);
                    None
                },
                Err(e) => Some(Err(e)),
            }
        } else if str_eq(name.as_str(), "EMBASSY") {
            match self.embassy.build() {
                Ok(embassy) => {
                    self.region.embassy(embassy);
                    None
                },
                Err(e) => Some(Err(e)),
            }
        } else {
            None
        }
    }

    /// Routes a text event to the open field context: see
    /// [`spec_text_step`].
    fn handle_text(&mut self, content: String) -> (out: Option<Result<Region, Error>>)
        ensures
            spec_text_step(*old(self), content, *final(self), out),
    {
        let tag = match &self.current_tag {
            Some(t) => t.clone(),
            None => {
                return None;
            },
        };
        if str_eq(tag.as_str(), "NAME") {
            self.region.name(content);
            None
        } else if str_eq(tag.as_str(), "NUMNATIONS") {
            match parse_i32(content.as_str()) {
                Ok(population) => {
                    self.region.population(population);
                    None
                },
                Err(e) => Some(Err(e)),
            }
        } else if str_eq(tag.as_str(), "DELEGATE") {
            if !str_eq(content.as_str(), "0") {
                self.region.delegate(content);
            }
            None
        } else if str_eq(tag.as_str(), "DELEGATEVOTES") {
            match parse_i32(content.as_str()) {
                Ok(votes) => {
                    self.region.delegate_votes(votes);
                    None
                },
                Err(e) => Some(Err(e)),
            }
        } else if str_eq(tag.as_str(), "DELEGATEAUTH") {
            self.region.delegate_auth(Authority::from_code(content.as_str()));
            None
        } else if str_eq(tag.as_str(), "FRONTIER") {
            if str_eq(content.as_str(), "1") {
                self.region.frontier(true);
            } else if str_eq(content.as_str(), "0") {
                self.region.frontier(false);
            }
            None
        } else if str_eq(tag.as_str(), "GOVERNOR") {
            if !str_eq(content.as_str(), "0") {
                self.region.governor(content);
            }
            None
        } else if str_eq(tag.as_str(), "LASTMAJORUPDATE") {
            match parse_i64(content.as_str()) {
                Ok(time) => {
                    self.region.last_major(time);
                    None
                },
                Err(e) => Some(Err(e)),
            }
        } else if str_eq(tag.as_str(), "LASTMINORUPDATE") {
            match parse_i64(content.as_str()) {
                Ok(time) => {
                    self.region.last_minor(time);
                    None
                },
                Err(e) => Some(Err(e)),
            }
        } else if str_eq(tag.as_str(), "NATION") {
            self.officer.name(content);
            None
        } else if str_eq(tag.as_str(), "OFFICE") {
            self.officer.office(content);
            None
        } else if str_eq(tag.as_str(), "AUTHORITY") {
            self.officer.authority(Authority::from_code(content.as_str()));
            None
        } else if str_eq(tag.as_str(), "TIME") {
            match parse_i64(content.as_str()) {
                Ok(time) => {
                    self.officer.time(time);
                    None
                },
                Err(e) => Some(Err(e)),
            }
        } else if str_eq(tag.as_str(), "BY") {
            self.officer.appointer(content);
            None
        } else if str_eq(tag.as_str(), "EMBASSY") {
            let status = match &self.current_type_attr {
                Some(v) => EmbassyStatus::from_code(v.as_str()),
                None => EmbassyStatus::Open,
            };
            self.embassy.region(content);
            self.embassy.status(status);
            None
        } else {
            None
        }
    }
}

} // verus!
