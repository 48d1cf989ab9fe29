//! The typed path-parameter extractor's carrier type and its rejections.

use vstd::prelude::*;
use crate::response::{STATUS_BAD_REQUEST, STATUS_INTERNAL_SERVER_ERROR};
use crate::text::{chars_of, chars_extend, string_of, dec_chars, format_u64};

verus! {

/// Typed path parameters, once deserialized from the captured pairs.
#[derive(Debug, Clone, Copy)]
pub struct Path<T>(pub T);

/// Why typed path-parameter deserialization failed.
#[derive(Debug)]
pub enum ErrorKind {
    /// The handler wanted a different number of parameters than the
    /// pattern captured.
    WrongNumberOfParameters { got: usize, expected: usize },
    /// A value failed to parse as the expected type, keyed.
    ParseErrorAtKey { key: String, value: String, expected_type: &'static str },
    /// A value failed to parse as the expected type, by position.
    ParseErrorAtIndex { index: usize, value: String, expected_type: &'static str },
    /// A value failed to parse as the expected type.
    ParseError { value: String, expected_type: &'static str },
    /// A captured value was not valid UTF-8 once decoded.
    InvalidUtf8InPathParam { key: String },
    /// The target type is not one path parameters can fill.
    UnsupportedType { name: &'static str },
    /// Any other deserializer message.
    Message(String),
}

/// The message text of a deserialization failure.
pub open spec fn spec_kind_message(k: ErrorKind) -> Seq<char> {
    match k {
        ErrorKind::Message(m) => m@,
        ErrorKind::InvalidUtf8InPathParam { key } => "Invalid UTF-8 in `"@ + key@ + "`"@,
        ErrorKind::WrongNumberOfParameters { got, expected } => {
            let base = "Wrong number of path arguments for `Path`. Expected "@ + dec_chars(
                expected as int,
            ) + " but got "@ + dec_chars(got as int);
            if expected == 1 {
                base
                    + ". Note that multiple parameters must be extracted with a tuple `Path<(_, _)>` or a struct `Path<YourParams>`"@
            } else {
                base
            }
        },
        ErrorKind::UnsupportedType { name } => "Unsupported type `"@ + name@ + "`"@,
        ErrorKind::ParseErrorAtKey { key, value, expected_type } => "Cannot parse `"@ + key@
            + "` with value `\""@ + value@ + "\"` to a `"@ + expected_type@ + "`"@,
        ErrorKind::ParseError { value, expected_type } => "Cannot parse `\""@ + value@
            + "\"` to a `"@ + expected_type@ + "`"@,
        ErrorKind::ParseErrorAtIndex { index, value, expected_type } => {
            "Cannot parse value at index "@ + dec_chars(index as int) + " with value `\""@ + value@
                + "\"` to a `"@ + expected_type@ + "`"@
        },
    }
}

impl ErrorKind {
    /// Renders the message text of this failure.
    pub fn message(&self) -> (r: String)
        ensures
            r@ == spec_kind_message(*self),
    {
        match self {
            ErrorKind::Message(m) => m.clone(),
            ErrorKind::InvalidUtf8InPathParam { key } => {
                let mut out = chars_of("Invalid UTF-8 in `");
                chars_extend(&mut out, &chars_of(key.as_str()));
                chars_extend(&mut out, &chars_of("`"));
                string_of(&out)
            }
            ErrorKind::WrongNumberOfParameters { got, expected } => {
                let mut out = chars_of("Wrong number of path arguments for `Path`. Expected ");
                chars_extend(&mut out, &chars_of(format_u64(*expected as u64).as_str()));
                chars_extend(&mut out, &chars_of(" but got "));
                chars_extend(&mut out, &chars_of(format_u64(*got as u64).as_str()));
                if *expected == 1 {
                    chars_extend(
                        &mut out,
                        &chars_of(
                            ". Note that multiple parameters must be extracted with a tuple `Path<(_, _)>` or a struct `Path<YourParams>`",
                        ),
                    );
                }
                string_of(&out)
            }
            ErrorKind::UnsupportedType { name } => {
                let mut out = chars_of("Unsupported type `");
                chars_extend(&mut out, &chars_of(name));
                chars_extend(&mut out, &chars_of("`"));
                string_of(&out)
            }
            ErrorKind::ParseErrorAtKey { key, value, expected_type } => {
                let mut out = chars_of("Cannot parse `");
                chars_extend(&mut out, &chars_of(key.as_str()));
                chars_extend(&mut out, &chars_of("` with value `\""));
                chars_extend(&mut out, &chars_of(value.as_str()));
                chars_extend(&mut out, &chars_of("\"` to a `"));
                chars_extend(&mut out, &chars_of(expected_type));
                chars_extend(&mut out, &chars_of("`"));
                string_of(&out)
            }
            ErrorKind::ParseError { value, expected_type } => {
                let mut out = chars_of("Cannot parse `\"");
                chars_extend(&mut out, &chars_of(value.as_str()));
                chars_extend(&mut out, &chars_of("\"` to a `"));
                chars_extend(&mut out, &chars_of(expected_type));
                chars_extend(&mut out, &chars_of("`"));
                string_of(&out)
            }
            ErrorKind::ParseErrorAtIndex { index, value, expected_type } => {
                let mut out = chars_of("Cannot parse value at index ");
                chars_extend(&mut out, &chars_of(format_u64(*index as u64).as_str()));
                chars_extend(&mut out, &chars_of(" with value `\""));
                chars_extend(&mut out, &chars_of(value.as_str()));
                chars_extend(&mut out, &chars_of("\"` to a `"));
                chars_extend(&mut out, &chars_of(expected_type));
                chars_extend(&mut out, &chars_of("`"));
                string_of(&out)
            }
        }
    }

    /// Whether this failure is the client's fault: such failures report a
    /// "bad request" status and a message prefixed accordingly.
    pub open spec fn spec_is_client_fault(self) -> bool {
        match self {
            ErrorKind::Message(_) => true,
            ErrorKind::InvalidUtf8InPathParam { .. } => true,
            ErrorKind::ParseError { .. } => true,
            ErrorKind::ParseErrorAtIndex { .. } => true,
            ErrorKind::ParseErrorAtKey { .. } => true,
            ErrorKind::WrongNumberOfParameters { .. } => false,
            ErrorKind::UnsupportedType { .. } => false,
        }
    }
}

/// A typed path-parameter deserialization failure.
#[derive(Debug)]
pub struct PathDeserializationError {
    pub kind: ErrorKind,
}

impl PathDeserializationError {
    /// Wraps a failure kind.
    pub fn new(kind: ErrorKind) -> (r: Self)
        ensures
            r.kind == kind,
    {
        PathDeserializationError { kind }
    }
}

/// The rejection the typed path extractor reports.
#[derive(Debug)]
pub struct FailedToDeserializePathParams(pub PathDeserializationError);

impl FailedToDeserializePathParams {
    /// The failure kind.
    pub fn kind(&self) -> (r: &ErrorKind)
        ensures
            r == &self.0.kind,
    {
        &self.0.kind
    }

    /// The failure kind, by value.
    pub fn into_kind(self) -> (r: ErrorKind)
        ensures
            r == self.0.kind,
    {
        self.0.kind
    }

    /// The response body for this rejection: client faults are marked as
    /// invalid URLs.
    pub fn body_text(&self) -> (r: String)
        ensures
            r@ == (if self.0.kind.spec_is_client_fault() {
                "Invalid URL: "@ + spec_kind_message(self.0.kind)
            } else {
                spec_kind_message(self.0.kind)
            }),
    {
        let msg = self.0.kind.message();
        match &self.0.kind {
            ErrorKind::Message(_)
            | ErrorKind::InvalidUtf8InPathParam { .. }
            | ErrorKind::ParseError { .. }
            | ErrorKind::ParseErrorAtIndex { .. }
            | ErrorKind::ParseErrorAtKey { .. } => {
                let mut out = chars_of("Invalid URL: ");
                chars_extend(&mut out, &chars_of(msg.as_str()));
                string_of(&out)
            }
            ErrorKind::WrongNumberOfParameters { .. } | ErrorKind::UnsupportedType { .. } => msg,
        }
    }

    /// The response status for this rejection.
    pub fn status(&self) -> (r: u16)
        ensures
            r == (if self.0.kind.spec_is_client_fault() {
                STATUS_BAD_REQUEST
            } else {
                STATUS_INTERNAL_SERVER_ERROR
            }),
    {
        match &self.0.kind {
            ErrorKind::Message(_)
            | ErrorKind::InvalidUtf8InPathParam { .. }
            | ErrorKind::ParseError { .. }
            | ErrorKind::ParseErrorAtIndex { .. }
            | ErrorKind::ParseErrorAtKey { .. } => STATUS_BAD_REQUEST,
            ErrorKind::WrongNumberOfParameters { .. } | ErrorKind::UnsupportedType { .. } => {
                STATUS_INTERNAL_SERVER_ERROR
            }
        }
    }
}

/// The captured parameters, exactly as the dispatch decoded them.
#[derive(Debug)]
pub struct RawPathParams(pub Vec<(String, String)>);

impl RawPathParams {
    /// A cursor over the pairs.
    pub fn iter(&self) -> (r: RawPathParamsIter<'_>)
        ensures
            r.params == &self.0,
            r.pos == 0,
    {
        RawPathParamsIter { params: &self.0, pos: 0 }
    }
}

/// A cursor over captured parameters.
#[derive(Debug)]
pub struct RawPathParamsIter<'a> {
    pub params: &'a Vec<(String, String)>,
    pub pos: usize,
}

impl<'a> RawPathParamsIter<'a> {
    /// The next pair, if one is left.
    pub fn next(&mut self) -> (r: Option<(&'a String, &'a String)>)
        ensures
            final(self).params == old(self).params,
            match r {
                Some((k, v)) => old(self).pos < old(self).params@.len() && k@
                    == old(self).params@[old(self).pos as int].0@ && v@
                    == old(self).params@[old(self).pos as int].1@ && final(self).pos == old(
                    self,
                ).pos + 1,
                None => old(self).pos >= old(self).params@.len() && final(self).pos == old(
                    self,
                ).pos,
            },
    {
        if self.pos < self.params.len() {
            let k = &self.params[self.pos].0;
            let v = &self.params[self.pos].1;
            self.pos = self.pos + 1;
            Some((k, v))
        } else {
            None
        }
    }
}

/// The rejection reported when a captured value was not valid UTF-8.
#[derive(Debug)]
pub struct InvalidUtf8InPathParam {
    pub key: String,
}

impl InvalidUtf8InPathParam {
    /// The response body for this rejection.
    pub fn body_text(&self) -> (r: String)
        ensures
            r@ == "Invalid UTF-8 in `"@ + self.key@ + "`"@,
    {
        let mut out = chars_of("Invalid UTF-8 in `");
        chars_extend(&mut out, &chars_of(self.key.as_str()));
        chars_extend(&mut out, &chars_of("`"));
        string_of(&out)
    }

    /// The response status for this rejection.
    pub fn status(&self) -> (r: u16)
        ensures
            r == STATUS_BAD_REQUEST,
    {
        STATUS_BAD_REQUEST
    }
}

} // verus!
