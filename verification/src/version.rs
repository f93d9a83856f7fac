//! The HTTP version codec: a closed enumeration of four version labels,
//! decoded case-insensitively from their labels or exactly from a
//! major/minor numeral pair, and encoded as the canonical label.

use vstd::prelude::*;

use crate::error::{HttpParseError, ParseErrorKind};
use crate::text::{eq_icase, eq_icase_char, eq_icase_str, lemma_eq_icase_sym, lemma_eq_icase_trans};

verus! {

/// The four HTTP versions this model labels. The enumeration only labels
/// the two binary-framed versions; it does not parse their wire format.
#[derive(Copy, Clone, Debug, PartialEq, Eq, PartialOrd, Ord, Hash, Structural)]
pub enum HttpVersion {
    /// HTTP/1.0
    One,
    /// HTTP/1.1
    OnePointOne,
    /// HTTP/2
    Two,
    /// HTTP/3
    Three,
}

impl Default for HttpVersion {
    /// The default version is HTTP/1.1.
    fn default() -> (r: Self)
        ensures
            r == HttpVersion::OnePointOne,
    {
        HttpVersion::OnePointOne
    }
}

/// The canonical label of a version.
pub open spec fn spec_version_label(v: HttpVersion) -> Seq<char> {
    match v {
        HttpVersion::One => seq!['H', 'T', 'T', 'P', '/', '1', '.', '0'],
        HttpVersion::OnePointOne => seq!['H', 'T', 'T', 'P', '/', '1', '.', '1'],
        HttpVersion::Two => seq!['H', 'T', 'T', 'P', '/', '2'],
        HttpVersion::Three => seq!['H', 'T', 'T', 'P', '/', '3'],
    }
}

/// The version whose canonical label matches the given text up to ASCII
/// case, if any.
pub open spec fn spec_version_of(t: Seq<char>) -> Option<HttpVersion> {
    if eq_icase(t, spec_version_label(HttpVersion::One)) {
        Some(HttpVersion::One)
    } else if eq_icase(t, spec_version_label(HttpVersion::OnePointOne)) {
        Some(HttpVersion::OnePointOne)
    } else if eq_icase(t, spec_version_label(HttpVersion::Two)) {
        Some(HttpVersion::Two)
    } else if eq_icase(t, spec_version_label(HttpVersion::Three)) {
        Some(HttpVersion::Three)
    } else {
        None
    }
}

/// The major/minor numeral pair that stands for a version.
pub open spec fn spec_version_numeral(v: HttpVersion) -> (u16, u16) {
    match v {
        HttpVersion::One => (1u16, 0u16),
        HttpVersion::OnePointOne => (1u16, 1u16),
        HttpVersion::Two => (2u16, 0u16),
        HttpVersion::Three => (3u16, 0u16),
    }
}

/// The version that a major/minor numeral pair decodes to, if any.
/// Matching is exact: `1.1` matches only the pair (1, 1).
pub open spec fn spec_version_of_numeral(major: u16, minor: u16) -> Option<HttpVersion> {
    if major == 1 && minor == 0 {
        Some(HttpVersion::One)
    } else if major == 1 && minor == 1 {
        Some(HttpVersion::OnePointOne)
    } else if major == 2 && minor == 0 {
        Some(HttpVersion::Two)
    } else if major == 3 && minor == 0 {
        Some(HttpVersion::Three)
    } else {
        None
    }
}

impl HttpVersion {
    /// Decodes a version label, matching the four canonical labels without
    /// regard to ASCII case. An unrecognized label fails with kind `Version`.
    pub fn from_str(s: &str) -> (r: Result<HttpVersion, HttpParseError>)
        ensures
            match spec_version_of(s@) {
                Some(v) => r matches Ok(x) && x == v,
                None => r matches Err(e) && e.kind == ParseErrorKind::Version,
            },
    {
        proof {
            reveal_strlit("HTTP/1.0");
            reveal_strlit("HTTP/1.1");
            reveal_strlit("HTTP/2");
            reveal_strlit("HTTP/3");
            assert("HTTP/1.0"@ =~= spec_version_label(HttpVersion::One));
            assert("HTTP/1.1"@ =~= spec_version_label(HttpVersion::OnePointOne));
            assert("HTTP/2"@ =~= spec_version_label(HttpVersion::Two));
            assert("HTTP/3"@ =~= spec_version_label(HttpVersion::Three));
        }
        if eq_icase_str(s, "HTTP/1.0") {
            Ok(HttpVersion::One)
        } else if eq_icase_str(s, "HTTP/1.1") {
            Ok(HttpVersion::OnePointOne)
        } else if eq_icase_str(s, "HTTP/2") {
            Ok(HttpVersion::Two)
        } else if eq_icase_str(s, "HTTP/3") {
            Ok(HttpVersion::Three)
        } else {
            Err(
                HttpParseError::from_kind_msg(
                    ParseErrorKind::Version,
                    "Couldn't find a valid HTTP Version to that string",
                ),
            )
        }
    }

    /// Decodes an optional version label; an absent label is itself a
    /// decode failure of kind `Version`.
    pub fn from_opt_str(s: Option<&str>) -> (r: Result<HttpVersion, HttpParseError>)
        ensures
            match s {
                None => r matches Err(e) && e.kind == ParseErrorKind::Version,
                Some(t) => match spec_version_of(t@) {
                    Some(v) => r matches Ok(x) && x == v,
                    None => r matches Err(e) && e.kind == ParseErrorKind::Version,
                },
            },
    {
        match s {
            Some(t) => HttpVersion::from_str(t),
            None => Err(
                HttpParseError::from_kind_msg(
                    ParseErrorKind::Version,
                    "the Option<?> was empty and couldn't get unwrapped",
                ),
            ),
        }
    }

    /// Decodes a version from a major/minor numeral pair by exact match
    /// against `1.0`, `1.1`, `2.0` and `3.0`; any other pair fails with
    /// kind `Version`.
    pub fn from_numeral(major: u16, minor: u16) -> (r: Result<HttpVersion, HttpParseError>)
        ensures
            match spec_version_of_numeral(major, minor) {
                Some(v) => r matches Ok(x) && x == v,
                None => r matches Err(e) && e.kind == ParseErrorKind::Version,
            },
    {
        if major == 1 && minor == 0 {
            Ok(HttpVersion::One)
        } else if major == 1 && minor == 1 {
            Ok(HttpVersion::OnePointOne)
        } else if major == 2 && minor == 0 {
            Ok(HttpVersion::Two)
        } else if major == 3 && minor == 0 {
            Ok(HttpVersion::Three)
        } else {
            Err(HttpParseError::from_kind(ParseErrorKind::Version))
        }
    }

    /// Decodes a version from its position in the canonical label table.
    pub fn from_index(value: usize) -> (r: Result<HttpVersion, HttpParseError>)
        ensures
            value == 0 ==> (r matches Ok(v) && v == HttpVersion::One),
            value == 1 ==> (r matches Ok(v) && v == HttpVersion::OnePointOne),
            value == 2 ==> (r matches Ok(v) && v == HttpVersion::Two),
            value == 3 ==> (r matches Ok(v) && v == HttpVersion::Three),
            value > 3 ==> (r matches Err(e) && e.kind == ParseErrorKind::Version),
    {
        match value {
            0 => Ok(HttpVersion::One),
            1 => Ok(HttpVersion::OnePointOne),
            2 => Ok(HttpVersion::Two),
            3 => Ok(HttpVersion::Three),
            _ => Err(
                HttpParseError::from_kind_msg(
                    ParseErrorKind::Version,
                    "The provided index didn't match",
                ),
            ),
        }
    }

    /// Encodes a version as its canonical label.
    pub fn encode(&self) -> (r: String)
        ensures
            r@ == spec_version_label(*self),
    {
        match self {
            HttpVersion::One => {
                let r = String::from_str("HTTP/1.0");
                proof {
                    reveal_strlit("HTTP/1.0");
                    assert(r@ =~= spec_version_label(HttpVersion::One));
                }
                r
            },
            HttpVersion::OnePointOne => {
                let r = String::from_str("HTTP/1.1");
                proof {
                    reveal_strlit("HTTP/1.1");
                    assert(r@ =~= spec_version_label(HttpVersion::OnePointOne));
                }
                r
            },
            HttpVersion::Two => {
                let r = String::from_str("HTTP/2");
                proof {
                    reveal_strlit("HTTP/2");
                    assert(r@ =~= spec_version_label(HttpVersion::Two));
                }
                r
            },
            HttpVersion::Three => {
                let r = String::from_str("HTTP/3");
                proof {
                    reveal_strlit("HTTP/3");
                    assert(r@ =~= spec_version_label(HttpVersion::Three));
                }
                r
            },
        }
    }
}

/// Law: decoding the canonical label of any version yields that version
/// back. Together with `lemma_version_decode_icase` this says decode
/// inverts encode on every version, whatever the ASCII case of the label.
pub proof fn lemma_version_round_trip(v: HttpVersion)
    ensures
        spec_version_of(spec_version_label(v)) == Some(v),
{
    let t = spec_version_label(v);
    assert(eq_icase(t, t));
    match v {
        HttpVersion::One => {
        },
        HttpVersion::OnePointOne => {
            assert(!eq_icase_char(
                seq!['H', 'T', 'T', 'P', '/', '1', '.', '1'][7],
                seq!['H', 'T', 'T', 'P', '/', '1', '.', '0'][7],
            ));
            assert(!eq_icase(t, spec_version_label(HttpVersion::One)));
        },
        HttpVersion::Two => {
            assert(!eq_icase(t, spec_version_label(HttpVersion::One)));
            assert(!eq_icase(t, spec_version_label(HttpVersion::OnePointOne)));
        },
        HttpVersion::Three => {
            assert(!eq_icase(t, spec_version_label(HttpVersion::One)));
            assert(!eq_icase(t, spec_version_label(HttpVersion::OnePointOne)));
            assert(!eq_icase_char(
                seq!['H', 'T', 'T', 'P', '/', '3'][5],
                seq!['H', 'T', 'T', 'P', '/', '2'][5],
            ));
            assert(!eq_icase(t, spec_version_label(HttpVersion::Two)));
        },
    }
}

/// Law: decoding the canonical numeral pair of any version yields that
/// version back.
pub proof fn lemma_version_numeral_round_trip(v: HttpVersion)
    ensures
        spec_version_of_numeral(spec_version_numeral(v).0, spec_version_numeral(v).1) == Some(v),
{
}

/// A canonical version label contains neither a space nor a newline, so
/// it survives start-line tokenization unchanged.
pub proof fn lemma_version_label_clean(v: HttpVersion)
    ensures
        !spec_version_label(v).contains(' '),
        !spec_version_label(v).contains('\n'),
{
    let t = spec_version_label(v);
    assert forall|i: int| 0 <= i < t.len() implies t[i] != ' ' && t[i] != '\n' by {
        match v {
            HttpVersion::One => {
                assert(t =~= seq!['H', 'T', 'T', 'P', '/', '1', '.', '0']);
            },
            HttpVersion::OnePointOne => {
                assert(t =~= seq!['H', 'T', 'T', 'P', '/', '1', '.', '1']);
            },
            HttpVersion::Two => {
                assert(t =~= seq!['H', 'T', 'T', 'P', '/', '2']);
            },
            HttpVersion::Three => {
                assert(t =~= seq!['H', 'T', 'T', 'P', '/', '3']);
            },
        }
    }
}

/// Law: version label decoding is insensitive to ASCII case — two texts
/// equal up to case decode to the same result.
pub proof fn lemma_version_decode_icase(a: Seq<char>, b: Seq<char>)
    requires
        eq_icase(a, b),
    ensures
        spec_version_of(a) == spec_version_of(b),
{
    assert forall|v: HttpVersion| #[trigger]
        eq_icase(a, spec_version_label(v)) == eq_icase(b, spec_version_label(v)) by {
        if eq_icase(a, spec_version_label(v)) {
            lemma_eq_icase_sym(a, b);
            lemma_eq_icase_trans(b, a, spec_version_label(v));
        }
        if eq_icase(b, spec_version_label(v)) {
            lemma_eq_icase_trans(a, b, spec_version_label(v));
        }
    }
    assert(eq_icase(a, spec_version_label(HttpVersion::One)) == eq_icase(
        b,
        spec_version_label(HttpVersion::One),
    ));
    assert(eq_icase(a, spec_version_label(HttpVersion::OnePointOne)) == eq_icase(
        b,
        spec_version_label(HttpVersion::OnePointOne),
    ));
    assert(eq_icase(a, spec_version_label(HttpVersion::Two)) == eq_icase(
        b,
        spec_version_label(HttpVersion::Two),
    ));
    assert(eq_icase(a, spec_version_label(HttpVersion::Three)) == eq_icase(
        b,
        spec_version_label(HttpVersion::Three),
    ));
}

} // verus!
