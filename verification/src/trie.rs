//! The path trie that maps a request path to a route identifier.
//!
//! The trie itself is `matchit`'s radix router; this module declares it
//! and wraps the three calls the registry makes. What the router holds is
//! named by [`trie_contents`]: the map from registered patterns to their
//! route identifiers. Which pattern a given path resolves to is the trie's
//! own affair; the wrappers state only what must hold of any outcome.

use vstd::prelude::*;
use crate::text::spec_count_char;

verus! {

/// The most named parameters one pattern may hold: the trie renames them
/// to single letters, so a pattern with more is refused before it reaches
/// the trie.
pub const MAX_PATTERN_PARAMS: usize = 25;

#[verifier::external_type_specification]
#[verifier::external_body]
#[verifier::reject_recursive_types(T)]
pub struct ExMatchitRouter<T>(matchit::Router<T>);

/// The patterns registered in the trie, each with its route identifier.
pub uninterp spec fn trie_contents(r: matchit::Router<u32>) -> Map<Seq<char>, u32>;

/// Whether the trie accepts a pattern: registering it in this router
/// succeeds. The outcome of an insertion is a function of the router and
/// the pattern alone, so it can be named; acceptance means the pattern is
/// well formed and neither duplicates nor conflicts with a registered one.
pub uninterp spec fn trie_accepts(r: matchit::Router<u32>, pattern: Seq<char>) -> bool;

/// Why the trie refused to register a pattern.
#[derive(Debug)]
pub enum TrieInsertError {
    /// The pattern conflicts with an already registered one; the existing
    /// route is named.
    Conflict { with: String },
    /// A segment holds more than one parameter.
    TooManyParams,
    /// A parameter has no name.
    UnnamedParam,
    /// A catch-all stands somewhere other than the end of the pattern.
    InvalidCatchAll,
}

/// An empty trie.
///
/// Relies on `matchit::Router::new`: it returns a router with no routes.
#[verifier::external_body]
pub fn trie_new() -> (res: matchit::Router<u32>)
    ensures
        (trie_contents(res) == Map::<Seq<char>, u32>::empty()),
{
    matchit::Router::new()
}

/// Registers a pattern.
///
/// Relies on `matchit::Router::insert`: whether it succeeds depends only
/// on the router and the pattern; on success the route is added and can
/// be matched; on failure the router is unchanged, and registering a
/// pattern a second time always fails with a conflict; a failed
/// insertion registers nothing, so the refused pattern is refused by the
/// resulting router as well. The trie renames the named parameters of a
/// pattern to single letters and does not return when it runs out of
/// them, so patterns with too many parameters are excluded here and
/// refused by the caller.
#[verifier::external_body]
pub fn trie_insert(r: &mut matchit::Router<u32>, pattern: &String, id: u32) -> (res: Result<
    (),
    TrieInsertError,
>)
    requires
        spec_count_char(pattern@, ':') <= MAX_PATTERN_PARAMS,
    ensures
        res is Ok <==> trie_accepts(*old(r), pattern@),
        res is Ok ==> trie_contents(*final(r)) == trie_contents(*old(r)).insert(pattern@, id),
        res is Err ==> trie_contents(*final(r)) == trie_contents(*old(r)),
        res is Err ==> !trie_accepts(*final(r), pattern@),
        trie_contents(*old(r)).dom().contains(pattern@) ==> res is Err,
{
    match r.insert(pattern.as_str(), id) {
        Ok(()) => Ok(()),
        Err(matchit::InsertError::Conflict { with }) => Err(TrieInsertError::Conflict { with }),
        Err(matchit::InsertError::TooManyParams) => Err(TrieInsertError::TooManyParams),
        Err(matchit::InsertError::UnnamedParam) => Err(TrieInsertError::UnnamedParam),
        Err(matchit::InsertError::InvalidCatchAll) => Err(TrieInsertError::InvalidCatchAll),
        Err(_) => Err(TrieInsertError::UnnamedParam),
    }
}

/// The route identifier a path resolves to in this router, if any: which
/// registered pattern wins, and so which value comes back, is a function
/// of the router and the path alone.
pub uninterp spec fn trie_resolves(r: matchit::Router<u32>, path: Seq<char>) -> Option<u32>;

/// The parameters the winning pattern captures from a path, in pattern
/// order: like [`trie_resolves`], a function of the router and the path.
pub uninterp spec fn trie_captures(r: matchit::Router<u32>, path: Seq<char>) -> Seq<
    (Seq<char>, Seq<char>),
>;

/// What a lookup resolved to.
pub enum TrieMatch {
    /// A registered pattern matched; its route identifier and the
    /// captured parameters, in pattern order.
    Found { id: u32, params: Vec<(String, String)> },
    /// No pattern matched.
    NotFound,
    /// A pattern would match the path without its trailing slash.
    ExtraTrailingSlash,
    /// A pattern would match the path with a trailing slash added.
    MissingTrailingSlash,
}

/// Looks a path up.
///
/// Relies on `matchit::Router::at`: its outcome depends only on the
/// router and the path; a hit carries the value stored for the matched
/// pattern — so the returned identifier is one that was registered — and
/// the parameters its segments captured; the two trailing-slash outcomes
/// mirror the trie's distinct errors.
#[verifier::external_body]
pub fn trie_at(r: &matchit::Router<u32>, path: &String) -> (res: TrieMatch)
    ensures
        res matches TrieMatch::Found { id, params } ==> exists|p: Seq<char>|
            #[trigger] trie_contents(*r).contains_pair(p, id),
        res matches TrieMatch::Found { id, params } ==> trie_resolves(*r, path@) == Some(id)
            && params.deep_view() == trie_captures(*r, path@),
        !(res is Found) ==> trie_resolves(*r, path@) is None,
{
    match r.at(path.as_str()) {
        Ok(m) => TrieMatch::Found {
            id: *m.value,
            params: m.params.iter().map(|(k, v)| (k.to_owned(), v.to_owned())).collect(),
        },
        Err(matchit::MatchError::NotFound) => TrieMatch::NotFound,
        Err(matchit::MatchError::ExtraTrailingSlash) => TrieMatch::ExtraTrailingSlash,
        Err(matchit::MatchError::MissingTrailingSlash) => TrieMatch::MissingTrailingSlash,
    }
}

} // verus!
