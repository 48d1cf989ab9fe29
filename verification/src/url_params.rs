//! Captured path parameters: percent-decoded key/value pairs, or a marker
//! naming the first key whose value failed UTF-8 decoding.

use vstd::prelude::*;
use crate::percent::{spec_decoded, percent_decoded_str};
use crate::request::Extensions;
use crate::text::{chars_of, chars_start_with};

verus! {

/// Parameter name the router uses internally for the tail captured by a
/// mounted service; it never reaches an application handler.
pub const NEST_TAIL_PARAM: &'static str = "__private__nest_tail_param";

/// Parameter name the router uses internally for fallback registrations.
pub const FALLBACK_PARAM: &'static str = "__private__fallback";

/// Whether a captured key is one of the router's internal parameters,
/// which are dropped before parameters reach an extractor.
pub open spec fn spec_is_private_key(k: Seq<char>) -> bool {
    ||| (k.len() >= NEST_TAIL_PARAM@.len() && k.subrange(0, NEST_TAIL_PARAM@.len() as int)
        == NEST_TAIL_PARAM@)
    ||| (k.len() >= FALLBACK_PARAM@.len() && k.subrange(0, FALLBACK_PARAM@.len() as int)
        == FALLBACK_PARAM@)
}

/// Path parameters captured from the matched pattern.
#[derive(Debug)]
pub enum UrlParams {
    /// The ordered, percent-decoded pairs.
    Params(Vec<(String, String)>),
    /// A captured value was not valid UTF-8 once decoded; the key names it.
    InvalidUtf8InPathParams { key: String },
}

impl Clone for UrlParams {
    fn clone(&self) -> (r: Self)
        ensures
            r.deep_eq(self),
    {
        match self {
            UrlParams::Params(ps) => {
                let mut out: Vec<(String, String)> = Vec::new();
                let mut i: usize = 0;
                while i < ps.len()
                    invariant
                        0 <= i <= ps.len(),
                        out@.len() == i,
                        forall|j: int|
                            0 <= j < i ==> out@[j].0@ == ps@[j].0@ && out@[j].1@ == ps@[j].1@,
                    decreases ps.len() - i,
                {
                    out.push((ps[i].0.clone(), ps[i].1.clone()));
                    i = i + 1;
                }
                proof {
                    assert(out.deep_view() =~= ps.deep_view());
                }
                UrlParams::Params(out)
            }
            UrlParams::InvalidUtf8InPathParams { key } => {
                UrlParams::InvalidUtf8InPathParams { key: key.clone() }
            }
        }
    }
}

impl UrlParams {
    /// Whether two values carry the same parameters or the same marker.
    pub open spec fn deep_eq(&self, other: &Self) -> bool {
        match (self, other) {
            (UrlParams::Params(a), UrlParams::Params(b)) => a.deep_view() == b.deep_view(),
            (
                UrlParams::InvalidUtf8InPathParams { key: a },
                UrlParams::InvalidUtf8InPathParams { key: b },
            ) => a@ == b@,
            _ => false,
        }
    }
}

/// The decoded pairs for a capture list: internal keys are dropped, every
/// other value is percent-decoded, and the first value that fails UTF-8
/// decoding turns the whole list into an error naming its key.
pub open spec fn spec_decode_params(ps: Seq<(Seq<char>, Seq<char>)>) -> Result<
    Seq<(Seq<char>, Seq<char>)>,
    Seq<char>,
>
    decreases ps.len(),
{
    if ps.len() == 0 {
        Ok(Seq::empty())
    } else {
        let k = ps[0].0;
        let v = ps[0].1;
        if spec_is_private_key(k) {
            spec_decode_params(ps.drop_first())
        } else {
            match spec_decoded(v) {
                Some(d) => match spec_decode_params(ps.drop_first()) {
                    Ok(rest) => Ok(seq![(k, d)] + rest),
                    Err(e) => Err(e),
                },
                None => Err(k),
            }
        }
    }
}

/// Decodes a capture list, short-circuiting at the first undecodable value.
pub fn decode_params(ps: &Vec<(String, String)>) -> (r: Result<Vec<(String, String)>, String>)
    ensures
        match r {
            Ok(out) => spec_decode_params(ps.deep_view()) == Ok::<_, Seq<char>>(out.deep_view()),
            Err(k) => spec_decode_params(ps.deep_view()) == Err::<Seq<(Seq<char>, Seq<char>)>, _>(
                k@,
            ),
        },
{
    let ghost full = ps.deep_view();
    let mut out: Vec<(String, String)> = Vec::new();
    let mut i: usize = 0;
    proof {
        assert(full.skip(0) =~= full);
    }
    while i < ps.len()
        invariant
            0 <= i <= ps.len(),
            full == ps.deep_view(),
            spec_decode_params(full) == match spec_decode_params(full.skip(i as int)) {
                Ok(rest) => Ok::<Seq<(Seq<char>, Seq<char>)>, Seq<char>>(out.deep_view() + rest),
                Err(e) => Err::<Seq<(Seq<char>, Seq<char>)>, Seq<char>>(e),
            },
        decreases ps.len() - i,
    {
        let ghost entry = full[i as int];
        proof {
            assert(entry == (ps@[i as int].0@, ps@[i as int].1@));
            assert(full.skip(i as int)[0] == entry);
            assert(full.skip(i as int).drop_first() =~= full.skip(i as int + 1));
        }
        let key_chars = chars_of(ps[i].0.as_str());
        let nest_tail = chars_of(NEST_TAIL_PARAM);
        let fallback = chars_of(FALLBACK_PARAM);
        let private = chars_start_with(&key_chars, &nest_tail) || chars_start_with(
            &key_chars,
            &fallback,
        );
        proof {
            assert(private == spec_is_private_key(entry.0));
        }
        if !private {
            match percent_decoded_str(&ps[i].1) {
                Some(decoded) => {
                    let ghost out_before = out.deep_view();
                    out.push((ps[i].0.clone(), decoded));
                    proof {
                        assert(out.deep_view() =~= out_before.push((entry.0, spec_decoded(entry.1)->0)));
                        if spec_decode_params(full.skip(i as int + 1)) is Ok {
                            let rest = spec_decode_params(full.skip(i as int + 1))->Ok_0;
                            assert(out_before + (seq![(entry.0, spec_decoded(entry.1)->0)] + rest)
                                =~= out.deep_view() + rest);
                        }
                    }
                }
                None => {
                    let key = ps[i].0.clone();
                    proof {
                        assert(spec_decode_params(full.skip(i as int)) == Err::<
                            Seq<(Seq<char>, Seq<char>)>,
                            Seq<char>,
                        >(entry.0));
                    }
                    return Err(key);
                }
            }
        }
        i = i + 1;
    }
    proof {
        assert(full.skip(full.len() as int) =~= Seq::<(Seq<char>, Seq<char>)>::empty());
        assert(out.deep_view() + Seq::<(Seq<char>, Seq<char>)>::empty() =~= out.deep_view());
    }
    Ok(out)
}


/// What the parameter slot holds after a dispatch records captures: an
/// earlier decode failure stands; otherwise the first new failure names
/// its key, and decoded pairs are appended to any earlier ones.
pub open spec fn spec_params_after(
    before: Option<UrlParams>,
    ps: Seq<(Seq<char>, Seq<char>)>,
    after: Option<UrlParams>,
) -> bool {
    match before {
        Some(UrlParams::InvalidUtf8InPathParams { key }) => after matches Some(
            UrlParams::InvalidUtf8InPathParams { key: k },
        ) && k@ == key@,
        _ => {
            let prior = match before {
                Some(UrlParams::Params(v)) => v.deep_view(),
                _ => Seq::empty(),
            };
            match spec_decode_params(ps) {
                Err(k) => after matches Some(UrlParams::InvalidUtf8InPathParams { key }) && key@
                    == k,
                Ok(ds) => after matches Some(UrlParams::Params(v)) && v.deep_view() == prior + ds,
            }
        },
    }
}

/// Records captured parameters on the request: internal keys are dropped,
/// values are percent-decoded, and a value that fails UTF-8 decoding turns
/// the slot into the error marker naming its key. An earlier marker is
/// kept untouched.
pub fn insert_url_params(ext: &mut Extensions, params: Vec<(String, String)>)
    ensures
        final(ext).matched_path == old(ext).matched_path,
        final(ext).nested_matched_path == old(ext).nested_matched_path,
        final(ext).original_path == old(ext).original_path,
        final(ext).body_limit == old(ext).body_limit,
        spec_params_after(old(ext).url_params, params.deep_view(), final(ext).url_params),
{
    match &ext.url_params {
        Some(UrlParams::InvalidUtf8InPathParams { .. }) => {
            return ;
        }
        _ => {}
    }
    match decode_params(&params) {
        Err(key) => {
            ext.url_params = Some(UrlParams::InvalidUtf8InPathParams { key });
        }
        Ok(decoded) => {
            let mut current: Vec<(String, String)> = match ext.url_params.take() {
                Some(UrlParams::Params(v)) => v,
                _ => Vec::new(),
            };
            let ghost prior = current.deep_view();
            let ghost ds = decoded.deep_view();
            let mut decoded = decoded;
            current.append(&mut decoded);
            proof {
                assert(current.deep_view() =~= prior + ds);
            }
            ext.url_params = Some(UrlParams::Params(current));
        }
    }
}
} // verus!
