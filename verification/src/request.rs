//! The request model: parsing a full request from text or bytes, its
//! read-only accessors, its wire rendering, and the law that parsing a
//! rendered request reproduces it.

use vstd::prelude::*;

use crate::error::{HttpParseError, ParseErrorKind};
use crate::headers::{
    keys_unique, spec_header_line, spec_render_headers, HeaderEntries, HeaderMap, key_in,
    lemma_split_render_headers,
};
use crate::method::{
    lemma_method_round_trip, lemma_method_token_clean, spec_method_of, spec_method_token,
    HttpMethod,
};
use crate::text::{
    join_with, lemma_join_split, lemma_not_contains_concat, lemma_split_on_append,
    lemma_split_on_len, lemma_split_on_no_sep, split_char, split_on,
};
use crate::util::{
    error_option_empty, has_kv_delim, lemma_parse_rendered_headers, parse_body, parse_header,
    spec_parse_headers, utf8_to_string, Destruct,
};
use crate::version::{
    lemma_version_label_clean, lemma_version_round_trip, spec_version_label, spec_version_of,
    HttpVersion,
};

verus! {

/// An HTTP request: method, target uri, version, ordered headers, body.
/// Constructed by parsing a complete message or directly from its fields;
/// it has no setters and is rebuilt by re-parsing, not mutated.
#[derive(Clone, Debug, PartialEq, Eq, Hash)]
pub struct Request {
    /// The request method.
    pub method: HttpMethod,
    /// The request target, taken verbatim from the start line.
    pub uri: String,
    /// The protocol version.
    pub version: HttpVersion,
    /// The header map, in insertion order with unique keys.
    pub headers: HeaderMap,
    /// The body text.
    pub body: String,
}

/// The mathematical value of a request.
pub struct RequestData {
    /// The request method.
    pub method: HttpMethod,
    /// The request target.
    pub uri: Seq<char>,
    /// The protocol version.
    pub version: HttpVersion,
    /// The header entries, in order.
    pub headers: HeaderEntries,
    /// The body text.
    pub body: Seq<char>,
}

impl View for Request {
    type V = RequestData;

    open spec fn view(&self) -> RequestData {
        RequestData {
            method: self.method,
            uri: self.uri@,
            version: self.version,
            headers: self.headers@,
            body: self.body@,
        }
    }
}

/// How a request start line parses: three space-separated tokens — a
/// method token, the uri taken verbatim, and a version label; further
/// tokens are ignored.
pub open spec fn spec_parse_request_line(line: Seq<char>) -> Option<
    (HttpMethod, Seq<char>, HttpVersion),
> {
    let toks = split_on(line, ' ');
    if toks.len() < 3 {
        None
    } else {
        match (spec_method_of(toks[0]), spec_version_of(toks[2])) {
            (Some(m), Some(v)) => Some((m, toks[1], v)),
            _ => None,
        }
    }
}

/// How a full request parses: the first line as the start line, then the
/// header block up to the first empty line, then the remaining lines
/// rejoined as the body. Start-line failures are reported with kind
/// `Request` — the boundary the caller sees — and header failures with
/// kind `Util`.
pub open spec fn spec_parse_request(s: Seq<char>) -> Result<RequestData, ParseErrorKind> {
    let ls = split_on(s, '\n');
    match spec_parse_request_line(ls[0]) {
        None => Err(ParseErrorKind::Request),
        Some(t) => match spec_parse_headers(ls, 1, Seq::empty()) {
            Err(_) => Err(ParseErrorKind::Util),
            Ok(p) => Ok(
                RequestData {
                    method: t.0,
                    uri: t.1,
                    version: t.2,
                    headers: p.0,
                    body: join_with(ls.skip(p.1), '\n'),
                },
            ),
        },
    }
}

/// The wire rendering of a request: the start line, the header block,
/// an empty line, the body.
pub open spec fn spec_render_request(v: RequestData) -> Seq<char> {
    spec_method_token(v.method) + seq![' '] + v.uri + seq![' '] + spec_version_label(v.version)
        + seq!['\n'] + spec_render_headers(v.headers) + seq!['\n'] + v.body
}

impl Request {
    /// Decodes a request start line into its method, uri and version.
    /// Every failure — an absent line, a missing token, an invalid method
    /// or version — carries kind `Request`, the boundary the caller sees.
    pub fn parse_meta_data_line(str: Option<&str>) -> (r: Result<
        (HttpMethod, String, HttpVersion),
        HttpParseError,
    >)
        ensures
            match str {
                None => r matches Err(e) && e.kind == ParseErrorKind::Request,
                Some(l) => match spec_parse_request_line(l@) {
                    Some(t) => r matches Ok(x) && x.0 == t.0 && x.1@ == t.1 && x.2 == t.2,
                    None => r matches Err(e) && e.kind == ParseErrorKind::Request,
                },
            },
    {
        let line = match str {
            Some(l) => l,
            None => {
                return Err(error_option_empty(ParseErrorKind::Request));
            },
        };
        let toks = split_char(line, ' ');
        if toks.len() < 3 {
            return Err(error_option_empty(ParseErrorKind::Request));
        }
        proof {
            assert(toks.deep_view()[0] == toks@[0]@);
            assert(toks.deep_view()[1] == toks@[1]@);
            assert(toks.deep_view()[2] == toks@[2]@);
        }
        let method = match HttpMethod::from_str(toks[0].as_str()) {
            Ok(m) => m,
            Err(_) => {
                return Err(
                    HttpParseError::from_kind_msg(
                        ParseErrorKind::Request,
                        "Couldn't find a valid HTTP method to that string",
                    ),
                );
            },
        };
        let version = match HttpVersion::from_str(toks[2].as_str()) {
            Ok(v) => v,
            Err(_) => {
                return Err(
                    HttpParseError::from_kind_msg(
                        ParseErrorKind::Request,
                        "Couldn't find a valid HTTP Version to that string",
                    ),
                );
            },
        };
        let uri = toks[1].clone();
        Ok((method, uri, version))
    }

    /// Parses a full request from its wire text.
    pub fn from_str(s: &str) -> (r: Result<Request, HttpParseError>)
        ensures
            match spec_parse_request(s@) {
                Ok(v) => r matches Ok(req) && req@ == v,
                Err(k) => r matches Err(e) && e.kind == k,
            },
    {
        let lines = split_char(s, '\n');
        proof {
            assert(lines.deep_view()[0] == lines@[0]@);
        }
        let meta = Request::parse_meta_data_line(Some(lines[0].as_str()));
        let (method, uri, version) = match meta {
            Ok(t) => t,
            Err(e) => {
                return Err(e);
            },
        };
        let hr = parse_header(&lines, 1);
        let (headers, cursor) = match hr {
            Ok(p) => p,
            Err(e) => {
                return Err(e);
            },
        };
        let body = parse_body(&lines, cursor);
        let req = Request { method, uri, version, headers, body };
        proof {
            let v = spec_parse_request(s@)->Ok_0;
            assert(req@.headers == v.headers);
            assert(req@.body == v.body);
            assert(req@ == v);
        }
        Ok(req)
    }

    /// Parses a full request from bytes: the bytes are first decoded as
    /// UTF-8 text, and invalid encoding fails with kind `Request`.
    pub fn from_bytes(bytes: &[u8]) -> (r: Result<Request, HttpParseError>)
        ensures
            vstd::utf8::valid_utf8(bytes@) ==> (match spec_parse_request(
                vstd::utf8::decode_utf8(bytes@),
            ) {
                Ok(v) => r matches Ok(req) && req@ == v,
                Err(k) => r matches Err(e) && e.kind == k,
            }),
            !vstd::utf8::valid_utf8(bytes@) ==> (r matches Err(e) && e.kind
                == ParseErrorKind::Request),
    {
        let owned = vstd::slice::slice_to_vec(bytes);
        match utf8_to_string(owned) {
            Some(s) => Request::from_str(s.as_str()),
            None => Err(
                HttpParseError::from_kind_msg(ParseErrorKind::Request, "invalid utf-8 sequence"),
            ),
        }
    }

    /// The method of this request.
    pub fn get_method(&self) -> (r: &HttpMethod)
        ensures
            *r == self.method,
    {
        &self.method
    }

    /// The uri of this request.
    pub fn get_uri(&self) -> (r: &String)
        ensures
            r@ == self.uri@,
    {
        &self.uri
    }

    /// The headers of this request, read-only.
    pub fn get_headers(&self) -> (r: &HeaderMap)
        ensures
            r@ == self.headers@,
    {
        &self.headers
    }

    /// The body of this request.
    pub fn get_body(&self) -> (r: &String)
        ensures
            r@ == self.body@,
    {
        &self.body
    }

    /// The version of this request.
    pub fn get_version(&self) -> (r: &HttpVersion)
        ensures
            *r == self.version,
    {
        &self.version
    }

    /// Renders this request in its wire form.
    pub fn render(&self) -> (r: String)
        ensures
            r@ == spec_render_request(self@),
    {
        let mut r = self.method.encode();
        let sp = " ";
        let nl = "\n";
        proof {
            reveal_strlit(" ");
            reveal_strlit("\n");
            assert(sp@ =~= seq![' ']);
            assert(nl@ =~= seq!['\n']);
        }
        r.append(sp);
        r.append(self.uri.as_str());
        r.append(sp);
        let ver = self.version.encode();
        r.append(ver.as_str());
        r.append(nl);
        let hb = self.headers.render();
        r.append(hb.as_str());
        r.append(nl);
        r.append(self.body.as_str());
        proof {
            assert(r@ =~= spec_render_request(self@));
        }
        r
    }
}

impl Destruct for Request {
    type Item = (HttpMethod, String, HttpVersion, HeaderMap, String);

    open spec fn destruct_rel(self, r: (HttpMethod, String, HttpVersion, HeaderMap, String)) -> bool {
        r.0 == self.method && r.1 == self.uri && r.2 == self.version && r.3 == self.headers && r.4
            == self.body
    }

    /// Destructs into method, uri, version, headers and body.
    fn destruct(self) -> (r: (HttpMethod, String, HttpVersion, HeaderMap, String)) {
        (self.method, self.uri, self.version, self.headers, self.body)
    }
}

/// Whether a request renders to text that parses back to it: the uri must
/// hold no space and no newline, keys must be unique, no key may contain
/// the `": "` delimiter, and no key or value a newline. The body is
/// unconstrained.
pub open spec fn renderable_request(v: RequestData) -> bool {
    &&& !v.uri.contains(' ')
    &&& !v.uri.contains('\n')
    &&& keys_unique(v.headers)
    &&& forall|j: int|
        0 <= j < v.headers.len() ==> !has_kv_delim((#[trigger] v.headers[j]).0)
            && !v.headers[j].0.contains('\n') && !v.headers[j].1.contains('\n')
}

/// Law: parsing the rendered text of any renderable request reproduces
/// that request exactly — method, uri, version, headers and body.
pub proof fn lemma_request_round_trip(v: RequestData)
    requires
        renderable_request(v),
    ensures
        spec_parse_request(spec_render_request(v)) == Ok::<RequestData, ParseErrorKind>(v),
{
    let tok = spec_method_token(v.method);
    let lab = spec_version_label(v.version);
    let start = tok + seq![' '] + v.uri + seq![' '] + lab;
    let hb = spec_render_headers(v.headers);
    let rendered = spec_render_request(v);
    let rest1 = hb + seq!['\n'] + v.body;
    lemma_method_token_clean(v.method);
    lemma_version_label_clean(v.version);

    // The rendered text splits into the start line, one line per header
    // entry, an empty line, and the split body.
    assert(rendered =~= start + seq!['\n'] + rest1);
    lemma_split_on_append(start, rest1, '\n');
    assert(!start.contains('\n')) by {
        lemma_not_contains_concat(tok, seq![' '], '\n');
        lemma_not_contains_concat(tok + seq![' '], v.uri, '\n');
        lemma_not_contains_concat(tok + seq![' '] + v.uri, seq![' '], '\n');
        lemma_not_contains_concat(tok + seq![' '] + v.uri + seq![' '], lab, '\n');
        assert(!seq![' '].contains('\n')) by {
            if seq![' '].contains('\n') {
                let i = choose|i: int| 0 <= i < 1 && seq![' '][i] == '\n';
            }
        }
    }
    lemma_split_on_no_sep(start, '\n');
    lemma_split_render_headers(v.headers, seq!['\n'] + v.body);
    assert(rest1 =~= hb + (seq!['\n'] + v.body));
    assert(seq!['\n'] + v.body =~= Seq::<char>::empty() + seq!['\n'] + v.body);
    lemma_split_on_append(Seq::<char>::empty(), v.body, '\n');
    let hlines = v.headers.map_values(|e: (Seq<char>, Seq<char>)| spec_header_line(e));
    let bls = split_on(v.body, '\n');
    let ls = split_on(rendered, '\n');
    assert(split_on(Seq::<char>::empty(), '\n') =~~= seq![Seq::<char>::empty()]);
    assert(ls =~~= seq![start] + hlines + seq![Seq::<char>::empty()] + bls);
    lemma_split_on_len(v.body, '\n');

    // The start line tokenizes into exactly the method token, the uri and
    // the version label, and the codecs decode them back.
    let toks = split_on(start, ' ');
    assert(start =~= tok + seq![' '] + (v.uri + seq![' '] + lab));
    lemma_split_on_append(tok, v.uri + seq![' '] + lab, ' ');
    lemma_split_on_no_sep(tok, ' ');
    assert(v.uri + seq![' '] + lab =~= v.uri + seq![' '] + lab);
    lemma_split_on_append(v.uri, lab, ' ');
    lemma_split_on_no_sep(v.uri, ' ');
    lemma_split_on_no_sep(lab, ' ');
    assert(toks =~~= seq![tok, v.uri, lab]);
    assert(ls[0] == start);
    lemma_method_round_trip(v.method);
    lemma_version_round_trip(v.version);
    assert(spec_parse_request_line(ls[0]) == Some((v.method, v.uri, v.version)));

    // The header block parses back to exactly the entries, and the cursor
    // lands on the first body line.
    assert forall|j: int| 0 <= j < v.headers.len() implies ls[1 + j] == spec_header_line(
        #[trigger] v.headers[j],
    ) by {
        assert(hlines[j] == spec_header_line(v.headers[j]));
    }
    assert(ls[1 + v.headers.len() as int].len() == 0);
    assert((1 + v.headers.len() as int) < ls.len());
    assert forall|j: int| 0 <= j < v.headers.len() implies !key_in(
        Seq::<(Seq<char>, Seq<char>)>::empty(),
        (#[trigger] v.headers[j]).0,
    ) by {
        if key_in(Seq::<(Seq<char>, Seq<char>)>::empty(), v.headers[j].0) {
            let m = choose|m: int|
                0 <= m < 0 && (#[trigger] Seq::<(Seq<char>, Seq<char>)>::empty()[m]).0 == v.headers[
                    j
                ].0;
        }
    }
    lemma_parse_rendered_headers(ls, 1, v.headers, Seq::empty());
    assert(Seq::<(Seq<char>, Seq<char>)>::empty() + v.headers =~~= v.headers);
    let cursor: int = 1 + v.headers.len() as int + 1;

    // The remaining lines rejoin into exactly the body.
    assert(ls.skip(cursor as int) =~~= bls);
    lemma_join_split(v.body, '\n');

    let parsed = spec_parse_request(rendered)->Ok_0;
    assert(parsed.headers =~~= v.headers);
    assert(parsed.body =~= v.body);
    assert(parsed == v);
}

} // verus!
