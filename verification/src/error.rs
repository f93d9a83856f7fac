//! The error taxonomy: which stage of message handling failed, plus an
//! optional advisory message.

use vstd::prelude::*;

use crate::util::Destruct;

verus! {

/// The stage of message handling at which a failure arose.
///
/// One kind per pipeline stage plus a catch-all. The kind alone drives
/// control flow; messages are advisory only.
#[derive(Copy, Clone, Debug, PartialEq, Eq, PartialOrd, Ord, Hash, Structural)]
pub enum ParseErrorKind {
    /// Catch-all, and the kind of a default-constructed error.
    Unknown,
    /// Failure while acquiring bytes from an external source.
    IO,
    /// Failure while decoding an HTTP method token.
    Method,
    /// Failure while decoding an HTTP version label or numeral.
    Version,
    /// Failure while parsing a request, or a missing required field.
    Request,
    /// Failure while decoding a status code.
    Status,
    /// Failure while parsing a response.
    Response,
    /// Failure in a shared helper, such as header-block parsing.
    Util,
}

impl Default for ParseErrorKind {
    /// The default kind is the catch-all.
    fn default() -> (r: Self)
        ensures
            r == ParseErrorKind::Unknown,
    {
        ParseErrorKind::Unknown
    }
}

/// An error value carrying the failing stage and an optional message.
///
/// Two errors with the same kind are the same kind of failure for
/// control-flow purposes; the message never affects behaviour.
#[derive(Clone, Debug, PartialEq, Eq, PartialOrd, Ord, Hash)]
pub struct HttpParseError {
    /// The stage that failed.
    pub kind: ParseErrorKind,
    /// Advisory detail, if any.
    pub msg: Option<String>,
}

impl HttpParseError {
    /// Constructs an error of kind `Unknown` with no message.
    pub fn new() -> (r: Self)
        ensures
            r.kind == ParseErrorKind::Unknown,
            r.msg is None,
    {
        HttpParseError { kind: ParseErrorKind::Unknown, msg: None }
    }

    /// Constructs an error of the given kind with no message.
    pub fn from_kind(kind: ParseErrorKind) -> (r: Self)
        ensures
            r.kind == kind,
            r.msg is None,
    {
        HttpParseError { kind, msg: None }
    }

    /// Constructs an error of the given kind carrying the given message.
    pub fn from_kind_msg(kind: ParseErrorKind, msg: &str) -> (r: Self)
        ensures
            r.kind == kind,
            r.msg matches Some(m) && m@ == msg@,
    {
        HttpParseError { kind, msg: Some(String::from_str(msg)) }
    }

    /// The kind of this error.
    pub fn get_kind(&self) -> (r: &ParseErrorKind)
        ensures
            *r == self.kind,
    {
        &self.kind
    }

    /// Replaces the message of this error, keeping its kind, and returns
    /// the error again for chaining.
    pub fn with_msg(&mut self, str: &str) -> (r: &mut Self)
        ensures
            r.kind == old(self).kind,
            r.msg matches Some(m) && m@ == str@,
            *final(self) == *final(r),
    {
        self.msg = Some(String::from_str(str));
        self
    }

    /// The message of this error, if one was attached.
    pub fn get_msg(&self) -> (r: Option<&str>)
        ensures
            match r {
                Some(m) => self.msg matches Some(s) && m@ == s@,
                None => self.msg is None,
            },
    {
        match &self.msg {
            Some(s) => Some(s.as_str()),
            None => None,
        }
    }
}

impl Default for HttpParseError {
    /// The default error has kind `Unknown` and no message.
    fn default() -> (r: Self)
        ensures
            r.kind == ParseErrorKind::Unknown,
            r.msg is None,
    {
        HttpParseError::new()
    }
}

impl Destruct for HttpParseError {
    type Item = (ParseErrorKind, String);

    open spec fn destruct_rel(self, r: (ParseErrorKind, String)) -> bool {
        &&& r.0 == self.kind
        &&& (match self.msg {
            Some(m) => r.1 == m,
            None => r.1@ == Seq::<char>::empty(),
        })
    }

    /// Destructs into the kind and the message, the latter empty when absent.
    fn destruct(self) -> (r: (ParseErrorKind, String)) {
        match self.msg {
            Some(m) => (self.kind, m),
            None => (self.kind, String::new()),
        }
    }
}

} // verus!
