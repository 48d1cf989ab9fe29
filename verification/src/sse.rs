//! Configuration for server-sent-event responses. The streaming itself is
//! transport work and lives outside the library; what is modeled here is
//! the data a stream is configured with.

use vstd::prelude::*;

verus! {

/// An event-stream response: the stream handle and its keep-alive
/// configuration.
#[derive(Debug, Clone)]
pub struct Sse<S> {
    pub stream: S,
    pub keep_alive: Option<KeepAlive>,
}

impl<S> Sse<S> {
    /// A stream without keep-alive messages.
    pub fn new(stream: S) -> (r: Self)
        ensures
            r.stream == stream,
            r.keep_alive is None,
    {
        Sse { stream, keep_alive: None }
    }

    /// Configures keep-alive messages for the stream.
    pub fn keep_alive(self, keep_alive: KeepAlive) -> (r: Self)
        ensures
            r.stream == self.stream,
            r.keep_alive == Some(keep_alive),
    {
        Sse { keep_alive: Some(keep_alive), ..self }
    }
}

/// How often, and with what comment text, a quiet event stream is kept
/// alive.
#[derive(Debug, Clone)]
pub struct KeepAlive {
    /// The quiet time, in milliseconds, after which a comment is sent.
    pub interval_ms: u64,
    /// The comment text sent to keep the stream alive.
    pub comment: String,
}

impl KeepAlive {
    /// The default: a comment-less ping every fifteen seconds.
    pub fn new() -> (r: Self)
        ensures
            r.interval_ms == 15000,
            r.comment@ == Seq::<char>::empty(),
    {
        KeepAlive { interval_ms: 15000, comment: String::new() }
    }

    /// Sets the quiet time before a keep-alive message.
    pub fn interval(self, interval_ms: u64) -> (r: Self)
        ensures
            r.interval_ms == interval_ms,
            r.comment@ == self.comment@,
    {
        KeepAlive { interval_ms, ..self }
    }

    /// Sets the keep-alive comment text.
    pub fn text(self, text: String) -> (r: Self)
        ensures
            r.interval_ms == self.interval_ms,
            r.comment@ == text@,
    {
        KeepAlive { comment: text, ..self }
    }
}

} // verus!
