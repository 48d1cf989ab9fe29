//! The pattern a request matched, recorded for extractors.
//!
//! A match inside a mounted service ends in the router's internal tail
//! capture; such a pattern is held back in a separate slot and prefixed to
//! the next match, so that the pattern an extractor finally sees is the
//! accumulated one without internal names.

use vstd::prelude::*;
use crate::request::Extensions;
use crate::text::{chars_of, chars_end_with, chars_extend, string_of};

verus! {

/// The final pattern segment under which a mounted service captures the
/// rest of the path.
pub const NEST_TAIL_PARAM_CAPTURE: &'static str = "/*__private__nest_tail_param";

/// The pattern the request was matched against.
#[derive(Debug, Clone)]
pub struct MatchedPath(pub String);

impl MatchedPath {
    /// The pattern as a string slice.
    pub fn as_str(&self) -> (r: &str)
        ensures
            r@ == self.0@,
    {
        self.0.as_str()
    }

    /// Reads the matched pattern a dispatch recorded on the request.
    pub fn from_extensions(ext: &Extensions) -> (r: Option<MatchedPath>)
        ensures
            match (r, ext.matched_path) {
                (Some(m), Some(p)) => m.0@ == p@,
                (None, None) => true,
                _ => false,
            },
    {
        match &ext.matched_path {
            Some(p) => Some(MatchedPath(p.clone())),
            None => None,
        }
    }
}

/// A pattern without its trailing tail capture, if it has one.
pub open spec fn spec_trim_capture(s: Seq<char>) -> Seq<char> {
    let cap = NEST_TAIL_PARAM_CAPTURE@;
    if s.len() >= cap.len() && s.subrange(s.len() - cap.len(), s.len() as int) == cap {
        s.subrange(0, s.len() - cap.len())
    } else {
        s
    }
}

/// The accumulated pattern: an earlier (partial) match, minus its tail
/// capture, prefixed to the new one.
pub open spec fn spec_appended_path(prev: Option<Seq<char>>, pattern: Seq<char>) -> Seq<char> {
    match prev {
        Some(p) => spec_trim_capture(p) + pattern,
        None => pattern,
    }
}

/// The earlier pattern a dispatch recorded, full or partial.
pub open spec fn spec_prev_path(ext: Extensions) -> Option<Seq<char>> {
    match ext.matched_path {
        Some(p) => Some(p@),
        None => match ext.nested_matched_path {
            Some(p) => Some(p@),
            None => None,
        },
    }
}

/// Whether a pattern ends in the internal tail capture.
pub open spec fn spec_is_nested(s: Seq<char>) -> bool {
    let cap = NEST_TAIL_PARAM_CAPTURE@;
    s.len() >= cap.len() && s.subrange(s.len() - cap.len(), s.len() as int) == cap
}

/// Records the matched pattern on the request: the accumulated pattern
/// goes to the partial slot when it still ends in the tail capture, and to
/// the full slot otherwise.
pub fn set_matched_path_for_request(pattern: &String, ext: &mut Extensions)
    ensures
        final(ext).url_params == old(ext).url_params,
        final(ext).original_path == old(ext).original_path,
        final(ext).body_limit == old(ext).body_limit,
        ({
            let full = spec_appended_path(spec_prev_path(*old(ext)), pattern@);
            if spec_is_nested(full) {
                &&& final(ext).nested_matched_path matches Some(p) && p@ == full
                &&& final(ext).matched_path == old(ext).matched_path
            } else {
                &&& final(ext).matched_path matches Some(p) && p@ == full
                &&& final(ext).nested_matched_path is None
            }
        }),
{
    let cap = chars_of(NEST_TAIL_PARAM_CAPTURE);
    let mut full: Vec<char> = Vec::new();
    let prev: Option<&String> = match &ext.matched_path {
        Some(p) => Some(p),
        None => match &ext.nested_matched_path {
            Some(p) => Some(p),
            None => None,
        },
    };
    match prev {
        Some(p) => {
            let mut pc = chars_of(p.as_str());
            if chars_end_with(&pc, &cap) {
                pc.truncate(pc.len() - cap.len());
                proof {
                    assert(pc@ =~= spec_trim_capture(p@));
                }
            } else {
                proof {
                    assert(pc@ == spec_trim_capture(p@));
                }
            }
            full = pc;
        }
        None => {}
    }
    let pat = chars_of(pattern.as_str());
    chars_extend(&mut full, &pat);
    proof {
        if spec_prev_path(*ext) is None {
            assert(full@ =~= spec_appended_path(spec_prev_path(*ext), pattern@));
        }
    }
    let s = string_of(&full);
    if chars_end_with(&full, &cap) {
        ext.nested_matched_path = Some(s);
    } else {
        ext.matched_path = Some(s);
        ext.nested_matched_path = None;
    }
}

} // verus!
