//! The response model: parsing a full response from text or bytes, its
//! accessors and mutators, its wire rendering, and the incremental
//! builder with required-field validation.

use vstd::prelude::*;

use crate::error::{HttpParseError, ParseErrorKind};
use crate::headers::{
    key_in, keys_unique, lemma_split_render_headers, spec_get, spec_header_line, spec_insert,
    spec_remove, spec_render_headers, HeaderEntries, HeaderMap,
};
use crate::status::{
    lemma_dec_clean, lemma_dec_round_trip, parse_u16, spec_dec, spec_parse_u16,
    spec_render_status, HttpStatus, StatusData,
};
use crate::text::{
    join_from, join_with, lemma_join_split, lemma_not_contains_concat, lemma_split_on_append,
    lemma_split_on_len, lemma_split_on_no_sep, split_char, split_on,
};
use crate::util::{
    error_option_empty, has_kv_delim, lemma_parse_rendered_headers, parse_body, parse_header,
    spec_parse_headers, utf8_to_string, Destruct,
};
use crate::version::{
    lemma_version_label_clean, lemma_version_round_trip, spec_version_label, spec_version_of,
    HttpVersion,
};

verus! {

/// An HTTP response: version, status, ordered headers, body. Mutable
/// through its setters, in addition to construction by parse or through
/// [`ResponseBuilder`].
#[derive(Clone, Debug, PartialEq, Eq, Hash)]
pub struct Response {
    /// The protocol version.
    pub version: HttpVersion,
    /// The status code with its reason phrase.
    pub status: HttpStatus,
    /// The header map, in insertion order with unique keys.
    pub headers: HeaderMap,
    /// The body text.
    pub body: String,
}

/// The mathematical value of a response.
pub struct ResponseData {
    /// The protocol version.
    pub version: HttpVersion,
    /// The status value.
    pub status: StatusData,
    /// The header entries, in order.
    pub headers: HeaderEntries,
    /// The body text.
    pub body: Seq<char>,
}

impl View for Response {
    type V = ResponseData;

    open spec fn view(&self) -> ResponseData {
        ResponseData {
            version: self.version,
            status: self.status@,
            headers: self.headers@,
            body: self.body@,
        }
    }
}

/// How a response start line parses: a version label, a status code, and
/// the reason phrase — all remaining tokens rejoined, so a reason may
/// contain spaces.
pub open spec fn spec_parse_status_line(line: Seq<char>) -> Option<
    (HttpVersion, u16, Seq<char>),
> {
    let toks = split_on(line, ' ');
    if toks.len() < 3 {
        None
    } else {
        match (spec_version_of(toks[0]), spec_parse_u16(toks[1])) {
            (Some(v), Some(c)) => Some((v, c, join_with(toks.skip(2), ' '))),
            _ => None,
        }
    }
}

/// How a full response parses: the first line as the status line, then
/// the header block up to the first empty line, then the remaining lines
/// rejoined as the body. Start-line failures are reported with kind
/// `Response` — the boundary the caller sees — and header failures with
/// kind `Util`.
pub open spec fn spec_parse_response(s: Seq<char>) -> Result<ResponseData, ParseErrorKind> {
    let ls = split_on(s, '\n');
    match spec_parse_status_line(ls[0]) {
        None => Err(ParseErrorKind::Response),
        Some(t) => match spec_parse_headers(ls, 1, Seq::empty()) {
            Err(_) => Err(ParseErrorKind::Util),
            Ok(p) => Ok(
                ResponseData {
                    version: t.0,
                    status: StatusData { code: t.1, message: t.2 },
                    headers: p.0,
                    body: join_with(ls.skip(p.1), '\n'),
                },
            ),
        },
    }
}

/// The wire rendering of a response: the status line, the header block,
/// an empty line, the body.
pub open spec fn spec_render_response(v: ResponseData) -> Seq<char> {
    spec_version_label(v.version) + seq![' '] + spec_render_status(v.status) + seq!['\n']
        + crate::headers::spec_render_headers(v.headers) + seq!['\n'] + v.body
}

impl Response {
    /// Creates a fresh [`ResponseBuilder`] with all four fields unset.
    pub fn builder() -> (r: ResponseBuilder)
        ensures
            r.version is None,
            r.status is None,
            r.headers is None,
            r.body is None,
    {
        ResponseBuilder::new()
    }

    /// Decodes a response start line into its version and status. The
    /// reason phrase keeps embedded spaces: all tokens after the code are
    /// rejoined. Every failure — an absent line, a missing token, an
    /// invalid version or code — carries kind `Response`, the boundary
    /// the caller sees.
    pub fn parse_meta_line(str: Option<&str>) -> (r: Result<
        (HttpVersion, HttpStatus),
        HttpParseError,
    >)
        ensures
            match str {
                None => r matches Err(e) && e.kind == ParseErrorKind::Response,
                Some(l) => match spec_parse_status_line(l@) {
                    Some(t) => r matches Ok(x) && x.0 == t.0 && x.1.code == t.1 && x.1.message@
                        == t.2,
                    None => r matches Err(e) && e.kind == ParseErrorKind::Response,
                },
            },
    {
        let line = match str {
            Some(l) => l,
            None => {
                return Err(error_option_empty(ParseErrorKind::Response));
            },
        };
        let toks = split_char(line, ' ');
        if toks.len() < 3 {
            return Err(error_option_empty(ParseErrorKind::Response));
        }
        proof {
            assert(toks.deep_view()[0] == toks@[0]@);
            assert(toks.deep_view()[1] == toks@[1]@);
        }
        let version = match HttpVersion::from_str(toks[0].as_str()) {
            Ok(v) => v,
            Err(_) => {
                return Err(
                    HttpParseError::from_kind_msg(
                        ParseErrorKind::Response,
                        "Couldn't find a valid HTTP Version to that string",
                    ),
                );
            },
        };
        let code = match parse_u16(toks[1].as_str()) {
            Some(c) => c,
            None => {
                return Err(
                    HttpParseError::from_kind_msg(
                        ParseErrorKind::Response,
                        "invalid digit found in string",
                    ),
                );
            },
        };
        let reason = join_from(&toks, 2, ' ');
        Ok((version, HttpStatus::from_parts(code, reason)))
    }

    /// Parses a full response from its wire text.
    pub fn from_str(s: &str) -> (r: Result<Response, HttpParseError>)
        ensures
            match spec_parse_response(s@) {
                Ok(v) => r matches Ok(resp) && resp@ == v,
                Err(k) => r matches Err(e) && e.kind == k,
            },
    {
        let lines = split_char(s, '\n');
        proof {
            assert(lines.deep_view()[0] == lines@[0]@);
        }
        let meta = Response::parse_meta_line(Some(lines[0].as_str()));
        let (version, status) = match meta {
            Ok(t) => t,
            Err(e) => {
                return Err(e);
            },
        };
        let hr = parse_header(&lines, 1);
        let (headers, cursor) = match hr {
            Ok(p) => p,
            Err(e) => {
                return Err(e);
            },
        };
        let body = parse_body(&lines, cursor);
        let resp = Response { version, status, headers, body };
        proof {
            let v = spec_parse_response(s@)->Ok_0;
            assert(resp@.headers == v.headers);
            assert(resp@.body == v.body);
            assert(resp@ == v);
        }
        Ok(resp)
    }

    /// Parses a full response from bytes: the bytes are first decoded as
    /// UTF-8 text, and invalid encoding fails with kind `Response`.
    pub fn from_bytes(bytes: &[u8]) -> (r: Result<Response, HttpParseError>)
        ensures
            vstd::utf8::valid_utf8(bytes@) ==> (match spec_parse_response(
                vstd::utf8::decode_utf8(bytes@),
            ) {
                Ok(v) => r matches Ok(resp) && resp@ == v,
                Err(k) => r matches Err(e) && e.kind == k,
            }),
            !vstd::utf8::valid_utf8(bytes@) ==> (r matches Err(e) && e.kind
                == ParseErrorKind::Response),
    {
        let owned = vstd::slice::slice_to_vec(bytes);
        match utf8_to_string(owned) {
            Some(s) => Response::from_str(s.as_str()),
            None => Err(
                HttpParseError::from_kind_msg(ParseErrorKind::Response, "invalid utf-8 sequence"),
            ),
        }
    }

    /// The version of this response.
    pub fn get_version(&self) -> (r: &HttpVersion)
        ensures
            *r == self.version,
    {
        &self.version
    }

    /// The headers of this response, read-only.
    pub fn get_headers(&self) -> (r: &HeaderMap)
        ensures
            r@ == self.headers@,
    {
        &self.headers
    }

    /// The status of this response.
    pub fn get_status(&self) -> (r: &HttpStatus)
        ensures
            *r == self.status,
    {
        &self.status
    }

    /// The body of this response.
    pub fn get_body(&self) -> (r: &String)
        ensures
            r@ == self.body@,
    {
        &self.body
    }

    /// Replaces the body, returning the response again for chaining.
    pub fn set_body(&mut self, body: String) -> (r: &mut Response)
        ensures
            r.body == body,
            r.version == old(self).version,
            r.status == old(self).status,
            r.headers == old(self).headers,
            *final(self) == *final(r),
    {
        self.body = body;
        self
    }

    /// Replaces the version, returning the response again for chaining.
    pub fn set_version(&mut self, version: HttpVersion) -> (r: &mut Response)
        ensures
            r.version == version,
            r.status == old(self).status,
            r.headers == old(self).headers,
            r.body == old(self).body,
            *final(self) == *final(r),
    {
        self.version = version;
        self
    }

    /// Replaces the status, returning the response again for chaining.
    pub fn set_status(&mut self, status: HttpStatus) -> (r: &mut Response)
        ensures
            r.status == status,
            r.version == old(self).version,
            r.headers == old(self).headers,
            r.body == old(self).body,
            *final(self) == *final(r),
    {
        self.status = status;
        self
    }

    /// Adds one header; an existing key keeps its position and gets the
    /// new value. Returns the response again for chaining.
    pub fn add_header(&mut self, kv: (String, String)) -> (r: &mut Response)
        ensures
            r.headers@ == spec_insert(old(self).headers@, kv.0@, kv.1@),
            r.version == old(self).version,
            r.status == old(self).status,
            r.body == old(self).body,
            *final(self) == *final(r),
    {
        let (k, v) = kv;
        self.headers.insert(k, v);
        self
    }

    /// Removes one header. Removing an absent key is not an error and
    /// leaves the map unchanged. Returns the response again for chaining.
    pub fn remove_header(&mut self, key: &String) -> (r: &mut Response)
        ensures
            r.headers@ == spec_remove(old(self).headers@, key@),
            r.version == old(self).version,
            r.status == old(self).status,
            r.body == old(self).body,
            *final(self) == *final(r),
    {
        self.headers.remove(key);
        self
    }

    /// The header value stored under the given key, if any.
    pub fn get_header(&mut self, key: &String) -> (r: Option<&String>)
        ensures
            match r {
                Some(v) => spec_get(old(self).headers@, key@) == Some(v@),
                None => spec_get(old(self).headers@, key@) is None,
            },
            *final(self) == *old(self),
    {
        self.headers.get(key)
    }

    /// The headers as a mutable reference, to manipulate directly.
    pub fn get_headers_mut(&mut self) -> (r: &mut HeaderMap)
        ensures
            *r == old(self).headers,
            final(self).headers == *final(r),
            final(self).version == old(self).version,
            final(self).status == old(self).status,
            final(self).body == old(self).body,
    {
        &mut self.headers
    }

    /// Appends borrowed text to the body, returning the response again
    /// for chaining.
    pub fn append_body_str(&mut self, str: &str) -> (r: &mut Response)
        ensures
            r.body@ == old(self).body@ + str@,
            r.version == old(self).version,
            r.status == old(self).status,
            r.headers == old(self).headers,
            *final(self) == *final(r),
    {
        self.body.append(str);
        self
    }

    /// Appends owned text to the body, returning the response again for
    /// chaining.
    pub fn append_body(&mut self, str: String) -> (r: &mut Response)
        ensures
            r.body@ == old(self).body@ + str@,
            r.version == old(self).version,
            r.status == old(self).status,
            r.headers == old(self).headers,
            *final(self) == *final(r),
    {
        self.body.append(str.as_str());
        self
    }

    /// Renders this response in its wire form.
    pub fn render(&self) -> (r: String)
        ensures
            r@ == spec_render_response(self@),
    {
        let mut r = self.version.encode();
        let sp = " ";
        let nl = "\n";
        proof {
            reveal_strlit(" ");
            reveal_strlit("\n");
            assert(sp@ =~= seq![' ']);
            assert(nl@ =~= seq!['\n']);
        }
        r.append(sp);
        let st = self.status.render();
        r.append(st.as_str());
        r.append(nl);
        let hb = self.headers.render();
        r.append(hb.as_str());
        r.append(nl);
        r.append(self.body.as_str());
        proof {
            assert(r@ =~= spec_render_response(self@));
        }
        r
    }
}

impl Default for Response {
    /// The default response is `200 OK` over HTTP/1.1 with no headers and
    /// the body `Hello, World`.
    fn default() -> (r: Self)
        ensures
            r.version == HttpVersion::OnePointOne,
            r.status.code == 200,
            r.status.message@ == "OK"@,
            r.headers@ == Seq::<(Seq<char>, Seq<char>)>::empty(),
            r.body@ == "Hello, World"@,
    {
        let r = Response {
            version: HttpVersion::OnePointOne,
            status: crate::presets::ok(),
            headers: HeaderMap::new(),
            body: String::from_str("Hello, World"),
        };
        proof {
            assert(r.headers@ =~~= Seq::<(Seq<char>, Seq<char>)>::empty());
        }
        r
    }
}

impl Destruct for Response {
    type Item = (HttpVersion, HttpStatus, HeaderMap, String);

    open spec fn destruct_rel(self, r: (HttpVersion, HttpStatus, HeaderMap, String)) -> bool {
        r.0 == self.version && r.1 == self.status && r.2 == self.headers && r.3 == self.body
    }

    /// Destructs into version, status, headers and body.
    fn destruct(self) -> (r: (HttpVersion, HttpStatus, HeaderMap, String)) {
        (self.version, self.status, self.headers, self.body)
    }
}

/// Whether a response renders to text that parses back to it: the reason
/// phrase must hold no newline (spaces are fine — the parser rejoins
/// them), keys must be unique, no key may contain the `": "` delimiter,
/// and no key or value a newline. The body is unconstrained.
pub open spec fn renderable_response(v: ResponseData) -> bool {
    &&& !v.status.message.contains('\n')
    &&& keys_unique(v.headers)
    &&& forall|j: int|
        0 <= j < v.headers.len() ==> !has_kv_delim((#[trigger] v.headers[j]).0)
            && !v.headers[j].0.contains('\n') && !v.headers[j].1.contains('\n')
}

/// Law: parsing the rendered text of any renderable response reproduces
/// that response exactly — version, status code, reason phrase, headers
/// and body.
pub proof fn lemma_response_round_trip(v: ResponseData)
    requires
        renderable_response(v),
    ensures
        spec_parse_response(spec_render_response(v)) == Ok::<ResponseData, ParseErrorKind>(v),
{
    let lab = spec_version_label(v.version);
    let dec = spec_dec(v.status.code as int);
    let msg = v.status.message;
    let stat = spec_render_status(v.status);
    let start = lab + seq![' '] + stat;
    let hb = spec_render_headers(v.headers);
    let rendered = spec_render_response(v);
    let rest1 = hb + seq!['\n'] + v.body;
    lemma_version_label_clean(v.version);
    lemma_dec_clean(v.status.code as int);

    // The rendered text splits into the status line, one line per header
    // entry, an empty line, and the split body.
    assert(rendered =~= start + seq!['\n'] + rest1);
    lemma_split_on_append(start, rest1, '\n');
    assert(!start.contains('\n')) by {
        assert(!seq![' '].contains('\n')) by {
            if seq![' '].contains('\n') {
                let i = choose|i: int| 0 <= i < 1 && seq![' '][i] == '\n';
            }
        }
        lemma_not_contains_concat(dec, seq![' '], '\n');
        lemma_not_contains_concat(dec + seq![' '], msg, '\n');
        assert(stat == dec + seq![' '] + msg);
        lemma_not_contains_concat(lab, seq![' '], '\n');
        lemma_not_contains_concat(lab + seq![' '], stat, '\n');
    }
    lemma_split_on_no_sep(start, '\n');
    lemma_split_render_headers(v.headers, seq!['\n'] + v.body);
    assert(rest1 =~= hb + (seq!['\n'] + v.body));
    assert(seq!['\n'] + v.body =~= Seq::<char>::empty() + seq!['\n'] + v.body);
    lemma_split_on_append(Seq::<char>::empty(), v.body, '\n');
    let hlines = v.headers.map_values(|e: (Seq<char>, Seq<char>)| spec_header_line(e));
    let bls = split_on(v.body, '\n');
    let ls = split_on(rendered, '\n');
    assert(split_on(Seq::<char>::empty(), '\n') =~~= seq![Seq::<char>::empty()]);
    assert(ls =~~= seq![start] + hlines + seq![Seq::<char>::empty()] + bls);
    lemma_split_on_len(v.body, '\n');

    // The status line tokenizes into the version label, the decimal code,
    // and the split reason phrase; the parser rejoins the latter exactly.
    let toks = split_on(start, ' ');
    assert(start =~= lab + seq![' '] + (dec + seq![' '] + msg));
    lemma_split_on_append(lab, dec + seq![' '] + msg, ' ');
    lemma_split_on_no_sep(lab, ' ');
    lemma_split_on_append(dec, msg, ' ');
    lemma_split_on_no_sep(dec, ' ');
    let msplit = split_on(msg, ' ');
    lemma_split_on_len(msg, ' ');
    assert(toks =~~= seq![lab, dec] + msplit);
    assert(toks.len() >= 3);
    assert(ls[0] == start);
    lemma_version_round_trip(v.version);
    lemma_dec_round_trip(v.status.code);
    assert(toks[0] == lab);
    assert(toks[1] == dec);
    assert(toks.skip(2) =~~= msplit);
    lemma_join_split(msg, ' ');
    assert(spec_parse_status_line(ls[0]) == Some((v.version, v.status.code, msg)));

    // The header block parses back to exactly the entries, and the cursor
    // lands on the first body line.
    assert forall|j: int| 0 <= j < v.headers.len() implies ls[1 + j] == spec_header_line(
        #[trigger] v.headers[j],
    ) by {
        assert(hlines[j] == spec_header_line(v.headers[j]));
    }
    assert(ls[1 + v.headers.len() as int].len() == 0);
    assert((1 + v.headers.len() as int) < ls.len());
    assert forall|j: int| 0 <= j < v.headers.len() implies !key_in(
        Seq::<(Seq<char>, Seq<char>)>::empty(),
        (#[trigger] v.headers[j]).0,
    ) by {
        if key_in(Seq::<(Seq<char>, Seq<char>)>::empty(), v.headers[j].0) {
            let m = choose|m: int|
                0 <= m < 0 && (#[trigger] Seq::<(Seq<char>, Seq<char>)>::empty()[m]).0 == v.headers[
                    j
                ].0;
        }
    }
    lemma_parse_rendered_headers(ls, 1, v.headers, Seq::empty());
    assert(Seq::<(Seq<char>, Seq<char>)>::empty() + v.headers =~~= v.headers);
    let cursor: int = 1 + v.headers.len() as int + 1;

    // The remaining lines rejoin into exactly the body.
    assert(ls.skip(cursor) =~~= bls);
    lemma_join_split(v.body, '\n');

    let parsed = spec_parse_response(rendered)->Ok_0;
    assert(parsed.headers =~~= v.headers);
    assert(parsed.body =~= v.body);
    assert(parsed.status == v.status);
    assert(parsed == v);
}

/// An accumulator of the four response fields, each optional until set.
/// Fields may be overwritten — the last write wins — and [`Self::build`]
/// is the only way out: it consumes the builder, so a built instance
/// cannot be built twice.
#[derive(Clone, Debug, PartialEq, Eq, Hash)]
pub struct ResponseBuilder {
    /// The version to build with, once set.
    pub version: Option<HttpVersion>,
    /// The status to build with, once set.
    pub status: Option<HttpStatus>,
    /// The headers to build with, once set.
    pub headers: Option<HeaderMap>,
    /// The body to build with, once set.
    pub body: Option<String>,
}

/// Whether all four fields of a builder have been set.
pub open spec fn spec_builder_complete(b: ResponseBuilder) -> bool {
    b.version is Some && b.status is Some && b.headers is Some && b.body is Some
}

impl ResponseBuilder {
    /// Creates a builder with all four fields unset.
    pub fn new() -> (r: Self)
        ensures
            r.version is None,
            r.status is None,
            r.headers is None,
            r.body is None,
    {
        ResponseBuilder { version: None, status: None, headers: None, body: None }
    }

    /// Whether all four fields are present, so that `build` would succeed.
    pub fn validate(&self) -> (r: bool)
        ensures
            r == spec_builder_complete(*self),
    {
        self.body.is_some() && self.status.is_some() && self.headers.is_some()
            && self.version.is_some()
    }

    /// Builds the response. This fails with kind `Request` if and only if
    /// at least one of version, status, headers and body was never set;
    /// failure consumes nothing that a caller could retry with, since the
    /// builder is taken by value either way — clone it first to retry.
    pub fn build(self) -> (r: Result<Response, HttpParseError>)
        ensures
            spec_builder_complete(self) ==> (r matches Ok(resp) && Some(resp.version)
                == self.version && Some(resp.status) == self.status && Some(resp.headers)
                == self.headers && Some(resp.body) == self.body),
            !spec_builder_complete(self) ==> (r matches Err(e) && e.kind
                == ParseErrorKind::Request),
    {
        if !self.validate() {
            return Err(
                HttpParseError::from_kind_msg(
                    ParseErrorKind::Request,
                    "min. 1 field was not filled with a value",
                ),
            );
        }
        match (self.version, self.status, self.headers, self.body) {
            (Some(version), Some(status), Some(headers), Some(body)) => Ok(
                Response { version, status, headers, body },
            ),
            _ => unreached(),
        }
    }

    /// Sets the headers, replacing any earlier value.
    pub fn with_headers(self, headers: HeaderMap) -> (r: Self)
        ensures
            r.headers == Some(headers),
            r.version == self.version,
            r.status == self.status,
            r.body == self.body,
    {
        let mut r = self;
        r.headers = Some(headers);
        r
    }

    /// Sets the body, replacing any earlier value.
    pub fn with_body(self, body: String) -> (r: Self)
        ensures
            r.body == Some(body),
            r.version == self.version,
            r.status == self.status,
            r.headers == self.headers,
    {
        let mut r = self;
        r.body = Some(body);
        r
    }

    /// Sets the version, replacing any earlier value.
    pub fn with_version(self, version: HttpVersion) -> (r: Self)
        ensures
            r.version == Some(version),
            r.status == self.status,
            r.headers == self.headers,
            r.body == self.body,
    {
        let mut r = self;
        r.version = Some(version);
        r
    }

    /// Sets the status, replacing any earlier value.
    pub fn with_status(self, status: HttpStatus) -> (r: Self)
        ensures
            r.status == Some(status),
            r.version == self.version,
            r.headers == self.headers,
            r.body == self.body,
    {
        let mut r = self;
        r.status = Some(status);
        r
    }

    /// Sets the headers to an empty map, replacing any earlier value.
    pub fn with_empty_headers(self) -> (r: Self)
        ensures
            r.headers matches Some(h) && h@ == Seq::<(Seq<char>, Seq<char>)>::empty(),
            r.version == self.version,
            r.status == self.status,
            r.body == self.body,
    {
        let empty = HeaderMap::new();
        proof {
            assert(empty@ =~~= Seq::<(Seq<char>, Seq<char>)>::empty());
        }
        self.with_headers(empty)
    }

    /// Sets the body to the empty text, replacing any earlier value.
    pub fn with_empty_body(self) -> (r: Self)
        ensures
            r.body matches Some(b) && b@ == Seq::<char>::empty(),
            r.version == self.version,
            r.status == self.status,
            r.headers == self.headers,
    {
        self.with_body(String::new())
    }
}

impl Default for ResponseBuilder {
    /// The default builder has all four fields unset.
    fn default() -> (r: Self)
        ensures
            r.version is None,
            r.status is None,
            r.headers is None,
            r.body is None,
    {
        ResponseBuilder::new()
    }
}

impl Destruct for ResponseBuilder {
    type Item = (Option<HttpVersion>, Option<HttpStatus>, Option<HeaderMap>, Option<String>);

    open spec fn destruct_rel(
        self,
        r: (Option<HttpVersion>, Option<HttpStatus>, Option<HeaderMap>, Option<String>),
    ) -> bool {
        r.0 == self.version && r.1 == self.status && r.2 == self.headers && r.3 == self.body
    }

    /// Destructs into the four optional fields.
    fn destruct(self) -> (r: (
        Option<HttpVersion>,
        Option<HttpStatus>,
        Option<HeaderMap>,
        Option<String>,
    )) {
        (self.version, self.status, self.headers, self.body)
    }
}

} // verus!
