//! The HTTP method codec: a closed enumeration of the nine method tokens,
//! decoded case-insensitively and encoded in canonical upper case.

use vstd::prelude::*;

use crate::error::{HttpParseError, ParseErrorKind};
use crate::text::{eq_icase, eq_icase_char, eq_icase_str, lemma_eq_icase_sym, lemma_eq_icase_trans};

verus! {

/// The nine HTTP methods.
#[derive(Copy, Clone, Debug, PartialEq, Eq, PartialOrd, Ord, Hash, Structural)]
pub enum HttpMethod {
    /// Creates data on a server; not necessarily idempotent.
    Post,
    /// Requests data from a server; idempotent.
    Get,
    /// Replaces data on a server; idempotent.
    Put,
    /// Deletes data from a server; idempotent.
    Delete,
    /// Applies a partial modification; not necessarily idempotent.
    Patch,
    /// Requests only the headers a matching GET would return; idempotent.
    Head,
    /// Opens a two-way communication channel; idempotent.
    Connect,
    /// Requests the permitted communication options; idempotent.
    Options,
    /// Requests a message loop-back for debugging; idempotent.
    Trace,
}

impl Default for HttpMethod {
    /// The default method is GET.
    fn default() -> (r: Self)
        ensures
            r == HttpMethod::Get,
    {
        HttpMethod::Get
    }
}

/// The canonical upper-case token of a method.
pub open spec fn spec_method_token(m: HttpMethod) -> Seq<char> {
    match m {
        HttpMethod::Post => seq!['P', 'O', 'S', 'T'],
        HttpMethod::Get => seq!['G', 'E', 'T'],
        HttpMethod::Put => seq!['P', 'U', 'T'],
        HttpMethod::Delete => seq!['D', 'E', 'L', 'E', 'T', 'E'],
        HttpMethod::Patch => seq!['P', 'A', 'T', 'C', 'H'],
        HttpMethod::Head => seq!['H', 'E', 'A', 'D'],
        HttpMethod::Connect => seq!['C', 'O', 'N', 'N', 'E', 'C', 'T'],
        HttpMethod::Options => seq!['O', 'P', 'T', 'I', 'O', 'N', 'S'],
        HttpMethod::Trace => seq!['T', 'R', 'A', 'C', 'E'],
    }
}

/// The method whose canonical token matches the given text up to ASCII
/// case, if any. The nine tokens are mutually exclusive, so at most one
/// matches.
pub open spec fn spec_method_of(t: Seq<char>) -> Option<HttpMethod> {
    if eq_icase(t, spec_method_token(HttpMethod::Post)) {
        Some(HttpMethod::Post)
    } else if eq_icase(t, spec_method_token(HttpMethod::Get)) {
        Some(HttpMethod::Get)
    } else if eq_icase(t, spec_method_token(HttpMethod::Put)) {
        Some(HttpMethod::Put)
    } else if eq_icase(t, spec_method_token(HttpMethod::Delete)) {
        Some(HttpMethod::Delete)
    } else if eq_icase(t, spec_method_token(HttpMethod::Patch)) {
        Some(HttpMethod::Patch)
    } else if eq_icase(t, spec_method_token(HttpMethod::Head)) {
        Some(HttpMethod::Head)
    } else if eq_icase(t, spec_method_token(HttpMethod::Connect)) {
        Some(HttpMethod::Connect)
    } else if eq_icase(t, spec_method_token(HttpMethod::Options)) {
        Some(HttpMethod::Options)
    } else if eq_icase(t, spec_method_token(HttpMethod::Trace)) {
        Some(HttpMethod::Trace)
    } else {
        None
    }
}

impl HttpMethod {
    /// Decodes a method token, matching the nine canonical tokens without
    /// regard to ASCII case. An unrecognized token fails with kind `Method`.
    pub fn from_str(s: &str) -> (r: Result<HttpMethod, HttpParseError>)
        ensures
            match spec_method_of(s@) {
                Some(m) => r matches Ok(x) && x == m,
                None => r matches Err(e) && e.kind == ParseErrorKind::Method,
            },
    {
        proof {
            reveal_strlit("POST");
            reveal_strlit("GET");
            reveal_strlit("PUT");
            reveal_strlit("DELETE");
            reveal_strlit("PATCH");
            reveal_strlit("HEAD");
            reveal_strlit("CONNECT");
            reveal_strlit("OPTIONS");
            reveal_strlit("TRACE");
            assert("POST"@ =~= spec_method_token(HttpMethod::Post));
            assert("GET"@ =~= spec_method_token(HttpMethod::Get));
            assert("PUT"@ =~= spec_method_token(HttpMethod::Put));
            assert("DELETE"@ =~= spec_method_token(HttpMethod::Delete));
            assert("PATCH"@ =~= spec_method_token(HttpMethod::Patch));
            assert("HEAD"@ =~= spec_method_token(HttpMethod::Head));
            assert("CONNECT"@ =~= spec_method_token(HttpMethod::Connect));
            assert("OPTIONS"@ =~= spec_method_token(HttpMethod::Options));
            assert("TRACE"@ =~= spec_method_token(HttpMethod::Trace));
        }
        if eq_icase_str(s, "POST") {
            Ok(HttpMethod::Post)
        } else if eq_icase_str(s, "GET") {
            Ok(HttpMethod::Get)
        } else if eq_icase_str(s, "PUT") {
            Ok(HttpMethod::Put)
        } else if eq_icase_str(s, "DELETE") {
            Ok(HttpMethod::Delete)
        } else if eq_icase_str(s, "PATCH") {
            Ok(HttpMethod::Patch)
        } else if eq_icase_str(s, "HEAD") {
            Ok(HttpMethod::Head)
        } else if eq_icase_str(s, "CONNECT") {
            Ok(HttpMethod::Connect)
        } else if eq_icase_str(s, "OPTIONS") {
            Ok(HttpMethod::Options)
        } else if eq_icase_str(s, "TRACE") {
            Ok(HttpMethod::Trace)
        } else {
            Err(
                HttpParseError::from_kind_msg(
                    ParseErrorKind::Method,
                    "Couldn't find a valid HTTP method to that string",
                ),
            )
        }
    }

    /// Decodes an optional method token; an absent token is itself a decode
    /// failure of kind `Method`.
    pub fn from_opt_str(s: Option<&str>) -> (r: Result<HttpMethod, HttpParseError>)
        ensures
            match s {
                None => r matches Err(e) && e.kind == ParseErrorKind::Method,
                Some(t) => match spec_method_of(t@) {
                    Some(m) => r matches Ok(x) && x == m,
                    None => r matches Err(e) && e.kind == ParseErrorKind::Method,
                },
            },
    {
        match s {
            Some(t) => HttpMethod::from_str(t),
            None => Err(
                HttpParseError::from_kind_msg(
                    ParseErrorKind::Method,
                    "the Option<?> was empty and couldn't get unwrapped",
                ),
            ),
        }
    }

    /// Decodes a method from its position in the canonical token table.
    pub fn from_index(value: usize) -> (r: Result<HttpMethod, HttpParseError>)
        ensures
            value == 0 ==> (r matches Ok(m) && m == HttpMethod::Post),
            value == 1 ==> (r matches Ok(m) && m == HttpMethod::Get),
            value == 2 ==> (r matches Ok(m) && m == HttpMethod::Put),
            value == 3 ==> (r matches Ok(m) && m == HttpMethod::Delete),
            value == 4 ==> (r matches Ok(m) && m == HttpMethod::Patch),
            value == 5 ==> (r matches Ok(m) && m == HttpMethod::Head),
            value == 6 ==> (r matches Ok(m) && m == HttpMethod::Connect),
            value == 7 ==> (r matches Ok(m) && m == HttpMethod::Options),
            value == 8 ==> (r matches Ok(m) && m == HttpMethod::Trace),
            value > 8 ==> (r matches Err(e) && e.kind == ParseErrorKind::Method),
    {
        match value {
            0 => Ok(HttpMethod::Post),
            1 => Ok(HttpMethod::Get),
            2 => Ok(HttpMethod::Put),
            3 => Ok(HttpMethod::Delete),
            4 => Ok(HttpMethod::Patch),
            5 => Ok(HttpMethod::Head),
            6 => Ok(HttpMethod::Connect),
            7 => Ok(HttpMethod::Options),
            8 => Ok(HttpMethod::Trace),
            _ => Err(
                HttpParseError::from_kind_msg(
                    ParseErrorKind::Method,
                    "The provided index didn't match",
                ),
            ),
        }
    }

    /// Encodes a method as its canonical upper-case token.
    pub fn encode(&self) -> (r: String)
        ensures
            r@ == spec_method_token(*self),
    {
        match self {
            HttpMethod::Post => {
                let r = String::from_str("POST");
                proof {
                    reveal_strlit("POST");
                    assert(r@ =~= spec_method_token(HttpMethod::Post));
                }
                r
            },
            HttpMethod::Get => {
                let r = String::from_str("GET");
                proof {
                    reveal_strlit("GET");
                    assert(r@ =~= spec_method_token(HttpMethod::Get));
                }
                r
            },
            HttpMethod::Put => {
                let r = String::from_str("PUT");
                proof {
                    reveal_strlit("PUT");
                    assert(r@ =~= spec_method_token(HttpMethod::Put));
                }
                r
            },
            HttpMethod::Delete => {
                let r = String::from_str("DELETE");
                proof {
                    reveal_strlit("DELETE");
                    assert(r@ =~= spec_method_token(HttpMethod::Delete));
                }
                r
            },
            HttpMethod::Patch => {
                let r = String::from_str("PATCH");
                proof {
                    reveal_strlit("PATCH");
                    assert(r@ =~= spec_method_token(HttpMethod::Patch));
                }
                r
            },
            HttpMethod::Head => {
                let r = String::from_str("HEAD");
                proof {
                    reveal_strlit("HEAD");
                    assert(r@ =~= spec_method_token(HttpMethod::Head));
                }
                r
            },
            HttpMethod::Connect => {
                let r = String::from_str("CONNECT");
                proof {
                    reveal_strlit("CONNECT");
                    assert(r@ =~= spec_method_token(HttpMethod::Connect));
                }
                r
            },
            HttpMethod::Options => {
                let r = String::from_str("OPTIONS");
                proof {
                    reveal_strlit("OPTIONS");
                    assert(r@ =~= spec_method_token(HttpMethod::Options));
                }
                r
            },
            HttpMethod::Trace => {
                let r = String::from_str("TRACE");
                proof {
                    reveal_strlit("TRACE");
                    assert(r@ =~= spec_method_token(HttpMethod::Trace));
                }
                r
            },
        }
    }
}

/// Law: decoding the canonical token of any method yields that method back.
/// Together with `lemma_method_decode_icase` this says decode inverts encode
/// on every method, whatever the ASCII case of the token.
pub proof fn lemma_method_round_trip(m: HttpMethod)
    ensures
        spec_method_of(spec_method_token(m)) == Some(m),
{
    let t = spec_method_token(m);
    assert(eq_icase(t, t));
    match m {
        HttpMethod::Post => {
        },
        HttpMethod::Get => {
            assert(!eq_icase(t, spec_method_token(HttpMethod::Post)));
        },
        HttpMethod::Put => {
            assert(!eq_icase_char(seq!['P', 'U', 'T'][1], seq!['G', 'E', 'T'][1]));
            assert(!eq_icase(t, spec_method_token(HttpMethod::Get)));
        },
        HttpMethod::Delete => {
            assert(!eq_icase(t, spec_method_token(HttpMethod::Post)));
            assert(!eq_icase(t, spec_method_token(HttpMethod::Get)));
            assert(!eq_icase(t, spec_method_token(HttpMethod::Put)));
        },
        HttpMethod::Patch => {
            assert(!eq_icase(t, spec_method_token(HttpMethod::Post)));
            assert(!eq_icase(t, spec_method_token(HttpMethod::Get)));
            assert(!eq_icase(t, spec_method_token(HttpMethod::Put)));
            assert(!eq_icase(t, spec_method_token(HttpMethod::Delete)));
        },
        HttpMethod::Head => {
            assert(!eq_icase_char(seq!['H', 'E', 'A', 'D'][0], seq!['P', 'O', 'S', 'T'][0]));
            assert(!eq_icase(t, spec_method_token(HttpMethod::Post)));
            assert(!eq_icase(t, spec_method_token(HttpMethod::Get)));
            assert(!eq_icase(t, spec_method_token(HttpMethod::Put)));
            assert(!eq_icase(t, spec_method_token(HttpMethod::Delete)));
            assert(!eq_icase_char(seq!['H', 'E', 'A', 'D'][0], seq!['P', 'A', 'T', 'C', 'H'][0]));
            assert(!eq_icase(t, spec_method_token(HttpMethod::Patch)));
        },
        HttpMethod::Connect => {
            assert(!eq_icase(t, spec_method_token(HttpMethod::Post)));
            assert(!eq_icase(t, spec_method_token(HttpMethod::Get)));
            assert(!eq_icase(t, spec_method_token(HttpMethod::Put)));
            assert(!eq_icase(t, spec_method_token(HttpMethod::Delete)));
            assert(!eq_icase(t, spec_method_token(HttpMethod::Patch)));
            assert(!eq_icase(t, spec_method_token(HttpMethod::Head)));
        },
        HttpMethod::Options => {
            assert(!eq_icase_char(
                seq!['O', 'P', 'T', 'I', 'O', 'N', 'S'][0],
                seq!['C', 'O', 'N', 'N', 'E', 'C', 'T'][0],
            ));
            assert(!eq_icase(t, spec_method_token(HttpMethod::Post)));
            assert(!eq_icase(t, spec_method_token(HttpMethod::Get)));
            assert(!eq_icase(t, spec_method_token(HttpMethod::Put)));
            assert(!eq_icase(t, spec_method_token(HttpMethod::Delete)));
            assert(!eq_icase(t, spec_method_token(HttpMethod::Patch)));
            assert(!eq_icase(t, spec_method_token(HttpMethod::Head)));
            assert(!eq_icase(t, spec_method_token(HttpMethod::Connect)));
        },
        HttpMethod::Trace => {
            assert(!eq_icase_char(seq!['T', 'R', 'A', 'C', 'E'][0], seq!['P', 'A', 'T', 'C', 'H'][0]));
            assert(!eq_icase(t, spec_method_token(HttpMethod::Post)));
            assert(!eq_icase(t, spec_method_token(HttpMethod::Get)));
            assert(!eq_icase(t, spec_method_token(HttpMethod::Put)));
            assert(!eq_icase(t, spec_method_token(HttpMethod::Delete)));
            assert(!eq_icase(t, spec_method_token(HttpMethod::Patch)));
            assert(!eq_icase(t, spec_method_token(HttpMethod::Head)));
            assert(!eq_icase(t, spec_method_token(HttpMethod::Connect)));
            assert(!eq_icase(t, spec_method_token(HttpMethod::Options)));
        },
    }
}

/// A canonical method token contains neither a space nor a newline, so it
/// survives start-line tokenization unchanged.
pub proof fn lemma_method_token_clean(m: HttpMethod)
    ensures
        !spec_method_token(m).contains(' '),
        !spec_method_token(m).contains('\n'),
{
    let t = spec_method_token(m);
    assert forall|i: int| 0 <= i < t.len() implies t[i] != ' ' && t[i] != '\n' by {
        match m {
            HttpMethod::Post => {
                assert(t =~= seq!['P', 'O', 'S', 'T']);
            },
            HttpMethod::Get => {
                assert(t =~= seq!['G', 'E', 'T']);
            },
            HttpMethod::Put => {
                assert(t =~= seq!['P', 'U', 'T']);
            },
            HttpMethod::Delete => {
                assert(t =~= seq!['D', 'E', 'L', 'E', 'T', 'E']);
            },
            HttpMethod::Patch => {
                assert(t =~= seq!['P', 'A', 'T', 'C', 'H']);
            },
            HttpMethod::Head => {
                assert(t =~= seq!['H', 'E', 'A', 'D']);
            },
            HttpMethod::Connect => {
                assert(t =~= seq!['C', 'O', 'N', 'N', 'E', 'C', 'T']);
            },
            HttpMethod::Options => {
                assert(t =~= seq!['O', 'P', 'T', 'I', 'O', 'N', 'S']);
            },
            HttpMethod::Trace => {
                assert(t =~= seq!['T', 'R', 'A', 'C', 'E']);
            },
        }
    }
}

/// Law: method decoding is insensitive to ASCII case — two texts equal up
/// to case decode to the same result.
pub proof fn lemma_method_decode_icase(a: Seq<char>, b: Seq<char>)
    requires
        eq_icase(a, b),
    ensures
        spec_method_of(a) == spec_method_of(b),
{
    lemma_eq_icase_sym(a, b);
    assert forall|m: HttpMethod| #[trigger]
        eq_icase(a, spec_method_token(m)) == eq_icase(b, spec_method_token(m)) by {
        if eq_icase(a, spec_method_token(m)) {
            lemma_eq_icase_sym(a, b);
            lemma_eq_icase_trans(b, a, spec_method_token(m));
        }
        if eq_icase(b, spec_method_token(m)) {
            lemma_eq_icase_trans(a, b, spec_method_token(m));
        }
    }
    assert(eq_icase(a, spec_method_token(HttpMethod::Post)) == eq_icase(
        b,
        spec_method_token(HttpMethod::Post),
    ));
    assert(eq_icase(a, spec_method_token(HttpMethod::Get)) == eq_icase(
        b,
        spec_method_token(HttpMethod::Get),
    ));
    assert(eq_icase(a, spec_method_token(HttpMethod::Put)) == eq_icase(
        b,
        spec_method_token(HttpMethod::Put),
    ));
    assert(eq_icase(a, spec_method_token(HttpMethod::Delete)) == eq_icase(
        b,
        spec_method_token(HttpMethod::Delete),
    ));
    assert(eq_icase(a, spec_method_token(HttpMethod::Patch)) == eq_icase(
        b,
        spec_method_token(HttpMethod::Patch),
    ));
    assert(eq_icase(a, spec_method_token(HttpMethod::Head)) == eq_icase(
        b,
        spec_method_token(HttpMethod::Head),
    ));
    assert(eq_icase(a, spec_method_token(HttpMethod::Connect)) == eq_icase(
        b,
        spec_method_token(HttpMethod::Connect),
    ));
    assert(eq_icase(a, spec_method_token(HttpMethod::Options)) == eq_icase(
        b,
        spec_method_token(HttpMethod::Options),
    ));
    assert(eq_icase(a, spec_method_token(HttpMethod::Trace)) == eq_icase(
        b,
        spec_method_token(HttpMethod::Trace),
    ));
}

} // verus!
