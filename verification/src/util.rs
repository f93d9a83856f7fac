//! Shared line-oriented helpers: parsing one `key: value` line, consuming
//! a header block, concatenating the remaining lines into a body, and the
//! `Destruct` and `TryRequest` traits.

use vstd::prelude::*;

use crate::error::{HttpParseError, ParseErrorKind};
use crate::headers::{
    keys_unique, spec_header_line, spec_insert, HeaderEntries, HeaderMap, key_in,
    lemma_spec_insert_keys_unique, lemma_spec_insert_push,
};
use crate::text::{join_from, join_with};

verus! {

/// Takes a value apart into its fields, for types whose fields are private
/// or that want destruction to be explicit.
pub trait Destruct: Sized {
    /// The shape of the destructed value, typically a tuple of the fields.
    type Item;

    /// How the destructed value relates to the original.
    spec fn destruct_rel(self, r: Self::Item) -> bool;

    /// Destructs the value into its fields.
    fn destruct(self) -> (r: Self::Item)
        ensures
            self.destruct_rel(r),
    ;
}

/// Sources that can hand over one request's worth of bytes, already
/// framed, to be parsed into a [`crate::request::Request`].
pub trait TryRequest {
    /// Tries to produce a request from this source.
    fn try_to_request(&mut self) -> Result<crate::request::Request, HttpParseError>;
}

/// Constructs the error a stage reports when a value it needs is absent.
pub fn error_option_empty(kind: ParseErrorKind) -> (r: HttpParseError)
    ensures
        r.kind == kind,
        r.msg is Some,
{
    HttpParseError::from_kind_msg(kind, "the Option<?> was empty and couldn't get unwrapped")
}

/// Copies a start-line token into an owned uri; an absent token is a
/// decode failure of kind `Util`.
pub fn parse_uri(str: Option<&str>) -> (r: Result<String, HttpParseError>)
    ensures
        match str {
            Some(s) => r matches Ok(u) && u@ == s@,
            None => r matches Err(e) && e.kind == ParseErrorKind::Util,
        },
{
    match str {
        Some(s) => Ok(String::from_str(s)),
        None => Err(error_option_empty(ParseErrorKind::Util)),
    }
}

/// Whether the `": "` delimiter stands at position `i` of the text.
pub open spec fn kv_delim_at(s: Seq<char>, i: int) -> bool {
    0 <= i && i + 1 < s.len() && s[i] == ':' && s[i + 1] == ' '
}

/// Whether the text contains the `": "` delimiter anywhere.
pub open spec fn has_kv_delim(s: Seq<char>) -> bool {
    exists|i: int| #[trigger] kv_delim_at(s, i)
}

/// How a header line splits at the first occurrence of the `": "`
/// delimiter: the key before it, the value being everything after it. A
/// line without the delimiter does not split.
pub open spec fn spec_split_kv(line: Seq<char>) -> Option<(Seq<char>, Seq<char>)>
    decreases line.len(),
{
    if line.len() < 2 {
        None
    } else if line[0] == ':' && line[1] == ' ' {
        Some((Seq::empty(), line.subrange(2, line.len() as int)))
    } else {
        match spec_split_kv(line.drop_first()) {
            None => None,
            Some(kv) => Some((seq![line[0]] + kv.0, kv.1)),
        }
    }
}

/// When the first `": "` stands at `j`, the line splits there.
pub proof fn lemma_split_kv_at(line: Seq<char>, j: int)
    requires
        0 <= j,
        j + 1 < line.len(),
        line[j] == ':',
        line[j + 1] == ' ',
        forall|i: int| 0 <= i < j ==> !(#[trigger] kv_delim_at(line, i)),
    ensures
        spec_split_kv(line) matches Some(kv) && kv.0 =~= line.subrange(0, j) && kv.1 =~= line.subrange(
            j + 2,
            line.len() as int,
        ),
    decreases j,
{
    if j == 0 {
        assert(spec_split_kv(line) matches Some(kv) && kv.0 =~= line.subrange(0, 0));
    } else {
        assert(!kv_delim_at(line, 0));
        assert(!(line[0] == ':' && line[1] == ' '));
        let rest = line.drop_first();
        assert(rest[j - 1] == line[j]);
        assert(rest[j] == line[j + 1]);
        assert forall|i: int| 0 <= i < j - 1 implies !(#[trigger] kv_delim_at(rest, i)) by {
            assert(rest[i] == line[i + 1]);
            assert(rest[i + 1] == line[i + 2]);
            assert(!kv_delim_at(line, i + 1));
        }
        lemma_split_kv_at(rest, j - 1);
        let kv = spec_split_kv(rest)->Some_0;
        assert(seq![line[0]] + kv.0 =~= line.subrange(0, j)) by {
            assert(kv.0 =~= rest.subrange(0, j - 1));
        }
        assert(kv.1 =~= line.subrange(j + 2, line.len() as int)) by {
            assert(kv.1 =~= rest.subrange(j + 1, rest.len() as int));
        }
    }
}

/// A line without the `": "` delimiter does not split.
pub proof fn lemma_split_kv_none(line: Seq<char>)
    requires
        forall|i: int| !(#[trigger] kv_delim_at(line, i)),
    ensures
        spec_split_kv(line) is None,
    decreases line.len(),
{
    if line.len() < 2 {
    } else {
        assert(!kv_delim_at(line, 0));
        assert(!(line[0] == ':' && line[1] == ' '));
        let rest = line.drop_first();
        assert forall|i: int| !(#[trigger] kv_delim_at(rest, i)) by {
            if 0 <= i && i + 1 < rest.len() {
                assert(rest[i] == line[i + 1]);
                assert(rest[i + 1] == line[i + 2]);
                assert(!kv_delim_at(line, i + 1));
            }
        }
        lemma_split_kv_none(rest);
    }
}

/// A rendered header line splits back into exactly its key and value,
/// provided the key does not itself contain the delimiter.
pub proof fn lemma_split_kv_header_line(k: Seq<char>, v: Seq<char>)
    requires
        !has_kv_delim(k),
    ensures
        spec_split_kv(spec_header_line((k, v))) == Some((k, v)),
{
    let line = spec_header_line((k, v));
    let j = k.len() as int;
    assert(line.len() == k.len() + 2 + v.len());
    assert(line[j] == ':');
    assert(line[j + 1] == ' ');
    assert forall|i: int| 0 <= i < j implies !(#[trigger] kv_delim_at(line, i)) by {
        assert(line[i] == k[i]);
        if i + 1 < j {
            assert(line[i + 1] == k[i + 1]);
            assert(!kv_delim_at(k, i));
        } else {
            assert(line[i + 1] == ':');
        }
    }
    lemma_split_kv_at(line, j);
    let kv = spec_split_kv(line)->Some_0;
    assert(kv.0 =~= k) by {
        assert(line.subrange(0, j) =~= k);
    }
    assert(kv.1 =~= v) by {
        assert(line.subrange(j + 2, line.len() as int) =~= v);
    }
}

/// Splits one header line on the first `": "` into an owned key and
/// value; a line without the delimiter fails with kind `Util`.
pub fn parse_key_value(str: &str) -> (r: Result<(String, String), HttpParseError>)
    ensures
        match spec_split_kv(str@) {
            Some(kv) => r matches Ok(p) && p.0@ == kv.0 && p.1@ == kv.1,
            None => r matches Err(e) && e.kind == ParseErrorKind::Util,
        },
{
    let n = str.unicode_len();
    let mut i: usize = 0;
    while i < n
        invariant
            n == str@.len(),
            0 <= i <= n,
            forall|m: int| m < i ==> !(#[trigger] kv_delim_at(str@, m)),
        decreases n - i,
    {
        if i + 1 < n {
            if str.get_char(i) == ':' && str.get_char(i + 1) == ' ' {
                let k = str.substring_char(0, i);
                let v = str.substring_char(i + 2, n);
                proof {
                    assert(kv_delim_at(str@, i as int));
                    lemma_split_kv_at(str@, i as int);
                }
                return Ok((String::from_str(k), String::from_str(v)));
            }
        }
        proof {
            assert(!kv_delim_at(str@, i as int));
        }
        i = i + 1;
    }
    proof {
        assert forall|m: int| !(#[trigger] kv_delim_at(str@, m)) by {
            if 0 <= m && m + 1 < str@.len() {
                assert(!kv_delim_at(str@, m));
            } else {
                assert(!kv_delim_at(str@, m));
            }
        }
        lemma_split_kv_none(str@);
    }
    Err(error_option_empty(ParseErrorKind::Util))
}

/// How a header block parses, starting at line `i` with the entries
/// accumulated so far: lines are consumed one at a time until the first
/// empty line (which is consumed too) or until the lines run out; each
/// line must split at `": "`, and duplicate keys overwrite. The cursor
/// where the body starts is returned beside the entries.
pub open spec fn spec_parse_headers(ls: Seq<Seq<char>>, i: int, acc: HeaderEntries) -> Result<
    (HeaderEntries, int),
    (),
>
    decreases ls.len() - i,
{
    if i < 0 || i >= ls.len() {
        Ok((acc, ls.len() as int))
    } else if ls[i].len() == 0 {
        Ok((acc, i + 1))
    } else {
        match spec_split_kv(ls[i]) {
            None => Err(()),
            Some(kv) => spec_parse_headers(ls, i + 1, spec_insert(acc, kv.0, kv.1)),
        }
    }
}

/// The cursor a header parse returns never runs backwards nor past the
/// end of the lines.
pub proof fn lemma_parse_headers_cursor(ls: Seq<Seq<char>>, i: int, acc: HeaderEntries)
    requires
        0 <= i <= ls.len(),
    ensures
        spec_parse_headers(ls, i, acc) matches Ok(p) ==> i <= p.1 <= ls.len(),
    decreases ls.len() - i,
{
    if i >= ls.len() {
    } else if ls[i].len() == 0 {
    } else {
        match spec_split_kv(ls[i]) {
            None => {
            },
            Some(kv) => {
                lemma_parse_headers_cursor(ls, i + 1, spec_insert(acc, kv.0, kv.1));
            },
        }
    }
}

/// Whatever was accumulated keeps unique keys through a header parse.
pub proof fn lemma_parse_headers_keys_unique(ls: Seq<Seq<char>>, i: int, acc: HeaderEntries)
    requires
        0 <= i <= ls.len(),
        keys_unique(acc),
    ensures
        spec_parse_headers(ls, i, acc) matches Ok(p) ==> keys_unique(p.0),
    decreases ls.len() - i,
{
    if i >= ls.len() {
    } else if ls[i].len() == 0 {
    } else {
        match spec_split_kv(ls[i]) {
            None => {
            },
            Some(kv) => {
                lemma_spec_insert_keys_unique(acc, kv.0, kv.1);
                lemma_parse_headers_keys_unique(ls, i + 1, spec_insert(acc, kv.0, kv.1));
            },
        }
    }
}

/// Parsing the lines a header block renders to recovers exactly the
/// rendered entries, appended to whatever was accumulated, and leaves the
/// cursor just past the empty line that ends the block.
pub proof fn lemma_parse_rendered_headers(
    ls: Seq<Seq<char>>,
    i: int,
    hs: HeaderEntries,
    acc: HeaderEntries,
)
    requires
        0 <= i,
        i + hs.len() < ls.len(),
        forall|j: int| 0 <= j < hs.len() ==> ls[i + j] == spec_header_line(#[trigger] hs[j]),
        ls[i + hs.len()].len() == 0,
        forall|j: int| 0 <= j < hs.len() ==> !has_kv_delim((#[trigger] hs[j]).0),
        keys_unique(hs),
        forall|j: int| 0 <= j < hs.len() ==> !key_in(acc, (#[trigger] hs[j]).0),
    ensures
        spec_parse_headers(ls, i, acc) == Ok::<(HeaderEntries, int), ()>(
            (acc + hs, i + hs.len() + 1),
        ),
    decreases hs.len(),
{
    if hs.len() == 0 {
        assert(ls[i].len() == 0);
        assert(acc + hs =~~= acc);
    } else {
        let e = hs[0];
        assert(ls[i] == spec_header_line(e));
        assert(ls[i].len() == e.0.len() + 2 + e.1.len());
        lemma_split_kv_header_line(e.0, e.1);
        assert(spec_split_kv(ls[i]) == Some((e.0, e.1)));
        assert(!key_in(acc, e.0));
        assert forall|m: int| 0 <= m < acc.len() implies (#[trigger] acc[m]).0 != e.0 by {
            if acc[m].0 == e.0 {
                assert(key_in(acc, e.0));
            }
        }
        lemma_spec_insert_push(acc, e.0, e.1);
        let acc2 = acc.push((e.0, e.1));
        assert(spec_insert(acc, e.0, e.1) == acc2);
        let hs2 = hs.drop_first();
        assert forall|j: int| 0 <= j < hs2.len() implies ls[i + 1 + j] == spec_header_line(
            #[trigger] hs2[j],
        ) by {
            assert(hs2[j] == hs[j + 1]);
        }
        assert(ls[i + 1 + hs2.len()].len() == 0);
        assert forall|j: int| 0 <= j < hs2.len() implies !has_kv_delim((#[trigger] hs2[j]).0) by {
            assert(hs2[j] == hs[j + 1]);
        }
        assert(keys_unique(hs2)) by {
            assert(forall|a: int, b: int|
                0 <= a < b < hs2.len() ==> hs2[a] == #[trigger] hs[a + 1] && hs2[b] == #[trigger] hs[b
                    + 1]);
        }
        assert forall|j: int| 0 <= j < hs2.len() implies !key_in(acc2, (#[trigger] hs2[j]).0) by {
            assert(hs2[j] == hs[j + 1]);
            if key_in(acc2, hs[j + 1].0) {
                let m = choose|m: int| 0 <= m < acc2.len() && (#[trigger] acc2[m]).0 == hs[j + 1].0;
                if m < acc.len() {
                    assert(acc[m].0 == hs[j + 1].0);
                    assert(key_in(acc, hs[j + 1].0));
                } else {
                    assert(acc2[m] == (e.0, e.1));
                    assert(hs[0].0 == hs[j + 1].0);
                }
            }
        }
        lemma_parse_rendered_headers(ls, i + 1, hs2, acc2);
        assert(acc2 + hs2 =~~= acc + hs);
    }
}

/// Consumes a header block from the lines, starting at `cursor`: one line
/// at a time until the first empty line (consumed) or the end of the
/// lines; each line splits at the first `": "`, a line without the
/// delimiter fails with kind `Util`, and a duplicate key overwrites the
/// earlier value in place. Returns the map and the cursor where the body
/// starts.
pub fn parse_header(lines: &Vec<String>, cursor: usize) -> (r: Result<
    (HeaderMap, usize),
    HttpParseError,
>)
    requires
        cursor <= lines@.len(),
    ensures
        match spec_parse_headers(lines.deep_view(), cursor as int, Seq::empty()) {
            Ok(p) => r matches Ok(q) && q.0@ == p.0 && q.1 == p.1 && keys_unique(q.0@) && cursor
                <= q.1 <= lines@.len(),
            Err(_) => r matches Err(e) && e.kind == ParseErrorKind::Util,
        },
{
    let ghost dv = lines.deep_view();
    let mut map = HeaderMap::new();
    let mut i = cursor;
    let n = lines.len();
    proof {
        assert(dv.len() == lines@.len());
        lemma_parse_headers_cursor(dv, cursor as int, Seq::empty());
        lemma_parse_headers_keys_unique(dv, cursor as int, Seq::empty());
    }
    while i < n
        invariant
            n == lines@.len(),
            dv == lines.deep_view(),
            dv.len() == n,
            cursor <= i <= n,
            keys_unique(map@),
            spec_parse_headers(dv, cursor as int, Seq::empty()) == spec_parse_headers(
                dv,
                i as int,
                map@,
            ),
        decreases n - i,
    {
        proof {
            assert(dv[i as int] == lines@[i as int]@);
        }
        if lines[i].as_str().is_empty() {
            proof {
                lemma_parse_headers_cursor(dv, cursor as int, Seq::empty());
                lemma_parse_headers_keys_unique(dv, cursor as int, Seq::empty());
            }
            return Ok((map, i + 1));
        }
        match parse_key_value(lines[i].as_str()) {
            Err(e) => {
                return Err(e);
            },
            Ok((k, v)) => {
                proof {
                    lemma_spec_insert_keys_unique(map@, k@, v@);
                }
                map.insert(k, v);
                i = i + 1;
            },
        }
    }
    proof {
        lemma_parse_headers_cursor(dv, cursor as int, Seq::empty());
        lemma_parse_headers_keys_unique(dv, cursor as int, Seq::empty());
    }
    Ok((map, i))
}

/// Concatenates the lines from `cursor` on into the body, reinserting a
/// newline between consecutive lines. No trailing newline is added: the
/// body of a message whose text ends in a newline ends with that newline
/// because the final split part is empty.
pub fn parse_body(lines: &Vec<String>, cursor: usize) -> (r: String)
    requires
        cursor <= lines@.len(),
    ensures
        r@ == join_with(lines.deep_view().skip(cursor as int), '\n'),
{
    join_from(lines, cursor, '\n')
}

/// Relies on `String::from_utf8`: per its documentation it returns the
/// decoded string exactly when the bytes are valid UTF-8, and an error
/// otherwise; stated through vstd's model of UTF-8.
#[verifier::external_body]
pub(crate) fn utf8_to_string(bytes: Vec<u8>) -> (r: Option<String>)
    ensures
        match r {
            Some(s) => vstd::utf8::valid_utf8(bytes@) && s@ == vstd::utf8::decode_utf8(bytes@),
            None => !vstd::utf8::valid_utf8(bytes@),
        },
{
    match String::from_utf8(bytes) {
        Ok(s) => Some(s),
        Err(_) => None,
    }
}

} // verus!
