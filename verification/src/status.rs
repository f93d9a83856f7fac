//! The status model: a numeric code with its reason phrase, the coarse
//! classification of codes into five response-class groups, and the
//! decimal code parsing and rendering both rest on.

use vstd::prelude::*;

use crate::error::{HttpParseError, ParseErrorKind};
use crate::text::split_on;
use crate::util::Destruct;

verus! {

/// Whether every character of the text is a decimal digit.
pub open spec fn all_digits(t: Seq<char>) -> bool {
    forall|j: int| 0 <= j < t.len() ==> 48 <= #[trigger] t[j] as u32 <= 57
}

/// The numeric value of a text of decimal digits, most significant first.
pub open spec fn spec_digits_val(t: Seq<char>) -> int
    decreases t.len(),
{
    if t.len() == 0 {
        0
    } else {
        spec_digits_val(t.drop_last()) * 10 + (t.last() as u32 - 48)
    }
}

/// How a text parses as an unsigned 16-bit decimal number: an optional
/// leading `+`, then at least one digit, with a value of at most 65535.
pub open spec fn spec_parse_u16(t: Seq<char>) -> Option<u16> {
    let d = if t.len() > 0 && t[0] == '+' {
        t.drop_first()
    } else {
        t
    };
    if d.len() == 0 {
        None
    } else if !all_digits(d) {
        None
    } else if spec_digits_val(d) > 65535 {
        None
    } else {
        Some(spec_digits_val(d) as u16)
    }
}

/// The value of a digit text is nonnegative and at least the value of any
/// of its prefixes.
pub proof fn lemma_digits_val_prefix_le(t: Seq<char>, k: int)
    requires
        all_digits(t),
        0 <= k <= t.len(),
    ensures
        0 <= spec_digits_val(t.take(k)),
        spec_digits_val(t.take(k)) <= spec_digits_val(t),
    decreases t.len(),
{
    if t.len() == 0 {
        assert(t.take(k) =~= t);
    } else if k == t.len() {
        assert(t.take(k) =~= t);
        assert(all_digits(t.drop_last())) by {
            assert(forall|j: int|
                0 <= j < t.drop_last().len() ==> t.drop_last()[j] == #[trigger] t[j]);
        }
        lemma_digits_val_prefix_le(t.drop_last(), t.drop_last().len() as int);
        assert(t.drop_last().take(t.drop_last().len() as int) =~= t.drop_last());
        assert(spec_digits_val(t.drop_last()) >= 0);
        assert(48 <= t.last() as u32 <= 57);
    } else {
        assert(all_digits(t.drop_last())) by {
            assert(forall|j: int|
                0 <= j < t.drop_last().len() ==> t.drop_last()[j] == #[trigger] t[j]);
        }
        assert(t.take(k) =~= t.drop_last().take(k));
        lemma_digits_val_prefix_le(t.drop_last(), k);
        assert(spec_digits_val(t.drop_last()) * 10 >= spec_digits_val(t.drop_last()));
        assert(48 <= t.last() as u32 <= 57);
    }
}

/// Parses an unsigned 16-bit decimal number: an optional leading `+`, then
/// at least one digit; rejects any other character and any over-range value.
pub fn parse_u16(s: &str) -> (r: Option<u16>)
    ensures
        r == spec_parse_u16(s@),
{
    let n = s.unicode_len();
    let mut i: usize = 0;
    if n > 0 && s.get_char(0) == '+' {
        i = 1;
    }
    let ghost d = if s@.len() > 0 && s@[0] == '+' {
        s@.drop_first()
    } else {
        s@
    };
    let start = i;
    proof {
        assert(d =~= s@.skip(start as int));
    }
    if i >= n {
        return None;
    }
    let mut acc: u32 = 0;
    while i < n
        invariant
            n == s@.len(),
            start <= i <= n,
            start <= 1,
            d == s@.skip(start as int),
            d == (if s@.len() > 0 && s@[0] == '+' {
                s@.drop_first()
            } else {
                s@
            }),
            all_digits(d.take(i - start)),
            acc == spec_digits_val(d.take(i - start)),
            acc <= 65535,
        decreases n - i,
    {
        let ghost k = i - start;
        let c = s.get_char(i);
        let cv = c as u32;
        proof {
            assert(d[k] == s@[i as int]);
        }
        if cv < 48 || cv > 57 {
            proof {
                assert(d[k] as u32 == cv);
                assert(!(48 <= d[k] as u32 <= 57));
                assert(!all_digits(d));
                assert(d.len() > 0);
                assert(spec_parse_u16(s@) is None);
            }
            return None;
        }
        let next = acc * 10 + (cv - 48);
        proof {
            assert(d.take(k + 1).drop_last() =~= d.take(k));
            assert(d.take(k + 1).last() == d[k]);
            assert(all_digits(d.take(k + 1))) by {
                assert(forall|j: int|
                    0 <= j < k + 1 ==> #[trigger] d.take(k + 1)[j] == d.take(k + 1)[j]);
            }
            assert(spec_digits_val(d.take(k + 1)) == acc * 10 + (cv - 48));
        }
        if next > 65535 {
            proof {
                assert(spec_digits_val(d.take(k + 1)) > 65535);
                if all_digits(d) {
                    lemma_digits_val_prefix_le(d, k + 1);
                    assert(spec_digits_val(d.take(k + 1)) <= spec_digits_val(d));
                    assert(spec_digits_val(d) > 65535);
                }
                assert(d.len() > 0);
                assert(spec_parse_u16(s@) is None);
            }
            return None;
        }
        acc = next;
        i = i + 1;
    }
    proof {
        assert(d.take(n - start) =~= d);
    }
    Some(acc as u16)
}

/// The decimal digit character for a value between 0 and 9.
pub open spec fn spec_digit_char(d: int) -> char {
    if d == 0 {
        '0'
    } else if d == 1 {
        '1'
    } else if d == 2 {
        '2'
    } else if d == 3 {
        '3'
    } else if d == 4 {
        '4'
    } else if d == 5 {
        '5'
    } else if d == 6 {
        '6'
    } else if d == 7 {
        '7'
    } else if d == 8 {
        '8'
    } else {
        '9'
    }
}

/// The decimal rendering of a nonnegative number, most significant first.
pub open spec fn spec_dec(n: int) -> Seq<char>
    decreases n,
{
    if n < 10 {
        seq![spec_digit_char(n)]
    } else {
        spec_dec(n / 10).push(spec_digit_char(n % 10))
    }
}

/// The one-character text for a decimal digit.
fn digit_str(d: u16) -> (r: &'static str)
    requires
        d < 10,
    ensures
        r@ =~= seq![spec_digit_char(d as int)],
{
    match d {
        0 => {
            proof {
                reveal_strlit("0");
            }
            "0"
        },
        1 => {
            proof {
                reveal_strlit("1");
            }
            "1"
        },
        2 => {
            proof {
                reveal_strlit("2");
            }
            "2"
        },
        3 => {
            proof {
                reveal_strlit("3");
            }
            "3"
        },
        4 => {
            proof {
                reveal_strlit("4");
            }
            "4"
        },
        5 => {
            proof {
                reveal_strlit("5");
            }
            "5"
        },
        6 => {
            proof {
                reveal_strlit("6");
            }
            "6"
        },
        7 => {
            proof {
                reveal_strlit("7");
            }
            "7"
        },
        8 => {
            proof {
                reveal_strlit("8");
            }
            "8"
        },
        _ => {
            proof {
                reveal_strlit("9");
            }
            "9"
        },
    }
}

/// Renders a 16-bit number in decimal, most significant digit first.
pub fn render_u16(n: u16) -> (r: String)
    ensures
        r@ == spec_dec(n as int),
    decreases n,
{
    if n < 10 {
        let r = String::from_str(digit_str(n));
        proof {
            assert(r@ =~= spec_dec(n as int));
        }
        r
    } else {
        let mut r = render_u16(n / 10);
        r.append(digit_str(n % 10));
        proof {
            assert(r@ =~= spec_dec((n as int) / 10).push(spec_digit_char((n as int) % 10)));
        }
        r
    }
}

/// The character of a decimal digit carries the scalar value 48 above
/// the digit.
pub proof fn lemma_digit_char_code(d: int)
    requires
        0 <= d <= 9,
    ensures
        spec_digit_char(d) as u32 == 48 + d,
{
    if d == 0 {
        assert(spec_digit_char(d) == '0');
        assert('0' as u32 == 48);
    } else if d == 1 {
        assert('1' as u32 == 49);
    } else if d == 2 {
        assert('2' as u32 == 50);
    } else if d == 3 {
        assert('3' as u32 == 51);
    } else if d == 4 {
        assert('4' as u32 == 52);
    } else if d == 5 {
        assert('5' as u32 == 53);
    } else if d == 6 {
        assert('6' as u32 == 54);
    } else if d == 7 {
        assert('7' as u32 == 55);
    } else if d == 8 {
        assert('8' as u32 == 56);
    } else {
        assert('9' as u32 == 57);
    }
}

/// A rendered decimal number consists of digits alone, and its value is
/// the number it was rendered from.
pub proof fn lemma_dec_digits(n: int)
    requires
        n >= 0,
    ensures
        all_digits(spec_dec(n)),
        spec_digits_val(spec_dec(n)) == n,
        spec_dec(n).len() >= 1,
    decreases n,
{
    if n < 10 {
        let t = spec_dec(n);
        lemma_digit_char_code(n);
        assert(t.len() == 1);
        assert(48 <= t[0] as u32 <= 57);
        assert(t.drop_last() =~= Seq::<char>::empty());
        assert(spec_digits_val(Seq::<char>::empty()) == 0);
        assert(t.last() == spec_digit_char(n));
        assert(spec_digits_val(t) == (t[0] as u32 - 48));
        assert(t[0] as u32 - 48 == n);
    } else {
        lemma_dec_digits(n / 10);
        lemma_digit_char_code(n % 10);
        let p = spec_dec(n / 10);
        let t = spec_dec(n);
        assert(t == p.push(spec_digit_char(n % 10)));
        assert(48 <= spec_digit_char(n % 10) as u32 <= 57);
        assert forall|j: int| 0 <= j < t.len() implies 48 <= #[trigger] t[j] as u32 <= 57 by {
            if j < p.len() {
                assert(t[j] == p[j]);
            } else {
                assert(t[j] == spec_digit_char(n % 10));
            }
        }
        assert(t.drop_last() =~= p);
        assert(t.last() == spec_digit_char(n % 10));
        assert(t.last() as u32 - 48 == n % 10);
        assert(spec_digits_val(t) == (n / 10) * 10 + n % 10);
    }
}

/// Law: parsing the decimal rendering of any 16-bit number yields that
/// number back.
pub proof fn lemma_dec_round_trip(code: u16)
    ensures
        spec_parse_u16(spec_dec(code as int)) == Some(code),
{
    let t = spec_dec(code as int);
    lemma_dec_digits(code as int);
    assert(48 <= t[0] as u32 <= 57);
    assert(t[0] != '+');
    assert(spec_digits_val(t) == code);
}

/// A rendered decimal number contains neither a space nor a newline.
pub proof fn lemma_dec_clean(n: int)
    requires
        n >= 0,
    ensures
        !spec_dec(n).contains(' '),
        !spec_dec(n).contains('\n'),
{
    lemma_dec_digits(n);
    let t = spec_dec(n);
    assert forall|j: int| 0 <= j < t.len() implies t[j] != ' ' && t[j] != '\n' by {
        assert(48 <= t[j] as u32 <= 57);
    }
}

/// The five response-class groups plus a catch-all for codes outside the
/// classified range.
#[derive(Copy, Clone, Debug, PartialEq, Eq, PartialOrd, Ord, Hash, Structural)]
pub enum HttpStatusGroup {
    /// Codes 100 to 199.
    Informational,
    /// Codes 200 to 299.
    Successful,
    /// Codes 300 to 399.
    Redirection,
    /// Codes 400 to 499.
    ClientError,
    /// Codes 500 to 599.
    ServerError,
    /// Any code outside 100 to 599.
    Unknown,
}

/// The group of a status code, by the hundred's-digit boundary table.
pub open spec fn spec_group_of(code: int) -> HttpStatusGroup {
    if 100 <= code <= 199 {
        HttpStatusGroup::Informational
    } else if 200 <= code <= 299 {
        HttpStatusGroup::Successful
    } else if 300 <= code <= 399 {
        HttpStatusGroup::Redirection
    } else if 400 <= code <= 499 {
        HttpStatusGroup::ClientError
    } else if 500 <= code <= 599 {
        HttpStatusGroup::ServerError
    } else {
        HttpStatusGroup::Unknown
    }
}

impl HttpStatusGroup {
    /// The group of an unsigned code of any width; anything outside 100
    /// to 599 classifies as `Unknown`.
    pub fn from_unsigned(value: usize) -> (g: HttpStatusGroup)
        ensures
            g == spec_group_of(value as int),
    {
        if 100 <= value && value <= 199 {
            HttpStatusGroup::Informational
        } else if 200 <= value && value <= 299 {
            HttpStatusGroup::Successful
        } else if 300 <= value && value <= 399 {
            HttpStatusGroup::Redirection
        } else if 400 <= value && value <= 499 {
            HttpStatusGroup::ClientError
        } else if 500 <= value && value <= 599 {
            HttpStatusGroup::ServerError
        } else {
            HttpStatusGroup::Unknown
        }
    }

    /// The group of a signed code; a negative code is no code at all and
    /// fails with kind `Status`.
    pub fn try_from_signed(value: isize) -> (r: Result<HttpStatusGroup, HttpParseError>)
        ensures
            value >= 0 ==> (r matches Ok(g) && g == spec_group_of(value as int)),
            value < 0 ==> (r matches Err(e) && e.kind == ParseErrorKind::Status),
    {
        if value >= 0 {
            Ok(HttpStatusGroup::from_unsigned(value as usize))
        } else {
            Err(
                HttpParseError::from_kind_msg(
                    ParseErrorKind::Status,
                    "out of range integral type conversion attempted",
                ),
            )
        }
    }

    /// The group of the given code, as a free-standing classification.
    pub fn from_code(code: u16) -> (g: HttpStatusGroup)
        ensures
            g == spec_group_of(code as int),
    {
        if 100 <= code && code <= 199 {
            HttpStatusGroup::Informational
        } else if 200 <= code && code <= 299 {
            HttpStatusGroup::Successful
        } else if 300 <= code && code <= 399 {
            HttpStatusGroup::Redirection
        } else if 400 <= code && code <= 499 {
            HttpStatusGroup::ClientError
        } else if 500 <= code && code <= 599 {
            HttpStatusGroup::ServerError
        } else {
            HttpStatusGroup::Unknown
        }
    }
}

/// Law: classification follows the hundred's-digit boundary table exactly,
/// each group if and only if its range, and `Unknown` outside 100 to 599.
pub proof fn lemma_group_boundaries(code: u16)
    ensures
        (100 <= code <= 199) <==> spec_group_of(code as int) == HttpStatusGroup::Informational,
        (200 <= code <= 299) <==> spec_group_of(code as int) == HttpStatusGroup::Successful,
        (300 <= code <= 399) <==> spec_group_of(code as int) == HttpStatusGroup::Redirection,
        (400 <= code <= 499) <==> spec_group_of(code as int) == HttpStatusGroup::ClientError,
        (500 <= code <= 599) <==> spec_group_of(code as int) == HttpStatusGroup::ServerError,
        (code < 100 || code > 599) <==> spec_group_of(code as int) == HttpStatusGroup::Unknown,
{
}

/// A status value: a numeric code with its reason phrase. Any code/phrase
/// pair is constructible; `crate::presets` offers the common pairs.
#[derive(Clone, Debug, PartialEq, Eq, PartialOrd, Ord, Hash)]
pub struct HttpStatus {
    /// The numeric status code.
    pub code: u16,
    /// The reason phrase, taken verbatim.
    pub message: String,
}

/// The mathematical value of a status: its code and reason phrase.
pub struct StatusData {
    /// The numeric status code.
    pub code: u16,
    /// The reason phrase.
    pub message: Seq<char>,
}

impl View for HttpStatus {
    type V = StatusData;

    open spec fn view(&self) -> StatusData {
        StatusData { code: self.code, message: self.message@ }
    }
}

/// The wire rendering of a status: the decimal code, one space, the phrase.
pub open spec fn spec_render_status(v: StatusData) -> Seq<char> {
    spec_dec(v.code as int) + seq![' '] + v.message
}

impl HttpStatus {
    /// Constructs a status from a code and an owned reason phrase.
    pub fn from_parts(code: u16, message: String) -> (r: Self)
        ensures
            r.code == code,
            r.message == message,
    {
        HttpStatus { code, message }
    }

    /// Constructs a status from a code and a borrowed reason phrase.
    pub fn from_code_msg(code: u16, message: &str) -> (r: Self)
        ensures
            r.code == code,
            r.message@ == message@,
    {
        HttpStatus { code, message: String::from_str(message) }
    }

    /// Constructs a status from an unsigned code of any width, rejecting
    /// codes that do not fit in 16 bits with kind `Status`.
    pub fn try_from_unsigned(code: usize, message: &str) -> (r: Result<Self, HttpParseError>)
        ensures
            code <= 65535 ==> (r matches Ok(s) && s.code == code && s.message@ == message@),
            code > 65535 ==> (r matches Err(e) && e.kind == ParseErrorKind::Status),
    {
        if code <= 65535 {
            Ok(HttpStatus::from_code_msg(code as u16, message))
        } else {
            Err(
                HttpParseError::from_kind_msg(
                    ParseErrorKind::Status,
                    "out of range integral type conversion attempted",
                ),
            )
        }
    }

    /// Constructs a status from a signed code of any width, rejecting
    /// negative and over-range codes with kind `Status`.
    pub fn try_from_signed(code: isize, message: &str) -> (r: Result<Self, HttpParseError>)
        ensures
            0 <= code <= 65535 ==> (r matches Ok(s) && s.code == code && s.message@ == message@),
            !(0 <= code <= 65535) ==> (r matches Err(e) && e.kind == ParseErrorKind::Status),
    {
        if code >= 0 {
            HttpStatus::try_from_unsigned(code as usize, message)
        } else {
            Err(
                HttpParseError::from_kind_msg(
                    ParseErrorKind::Status,
                    "out of range integral type conversion attempted",
                ),
            )
        }
    }

    /// Constructs a status from a code given as text, rejecting text that
    /// is no unsigned 16-bit decimal number with kind `Status`.
    pub fn try_from_text(code: &str, message: &str) -> (r: Result<Self, HttpParseError>)
        ensures
            match spec_parse_u16(code@) {
                Some(c) => r matches Ok(s) && s.code == c && s.message@ == message@,
                None => r matches Err(e) && e.kind == ParseErrorKind::Status,
            },
    {
        match parse_u16(code) {
            Some(c) => Ok(HttpStatus::from_code_msg(c, message)),
            None => Err(
                HttpParseError::from_kind_msg(
                    ParseErrorKind::Status,
                    "invalid digit found in string",
                ),
            ),
        }
    }

    /// Decodes a status line of the form `<code> <reason>`. Exactly two
    /// space-separated tokens are consumed: the reason is the second token
    /// alone, and anything after it is ignored by this stage. A missing
    /// token or an invalid code fails with kind `Status`.
    pub fn from_str(s: &str) -> (r: Result<Self, HttpParseError>)
        ensures
            match spec_parse_status(s@) {
                Some(v) => r matches Ok(x) && x@ == v,
                None => r matches Err(e) && e.kind == ParseErrorKind::Status,
            },
    {
        let toks = crate::text::split_char(s, ' ');
        if toks.len() < 2 {
            return Err(
                HttpParseError::from_kind_msg(
                    ParseErrorKind::Status,
                    "the Option<?> was empty and couldn't get unwrapped",
                ),
            );
        }
        let r = HttpStatus::try_from_text(toks[0].as_str(), toks[1].as_str());
        proof {
            assert(toks.deep_view()[0] == split_on(s@, ' ')[0]);
            assert(toks.deep_view()[1] == split_on(s@, ' ')[1]);
        }
        r
    }

    /// The group of this status, classified from its code on demand.
    pub fn get_group(&self) -> (g: HttpStatusGroup)
        ensures
            g == spec_group_of(self.code as int),
    {
        HttpStatusGroup::from_code(self.code)
    }

    /// Whether this status falls in the given group.
    pub fn has_group(&self, group: &HttpStatusGroup) -> (r: bool)
        ensures
            r == (spec_group_of(self.code as int) == *group),
    {
        let own = self.get_group();
        own.eq_group(group)
    }

    /// The numeric status code.
    pub fn get_code(&self) -> (r: &u16)
        ensures
            *r == self.code,
    {
        &self.code
    }

    /// The reason phrase.
    pub fn get_message(&self) -> (r: &String)
        ensures
            r@ == self.message@,
    {
        &self.message
    }

    /// Encodes this status as `<code> <reason>`.
    pub fn render(&self) -> (r: String)
        ensures
            r@ == spec_render_status(self@),
    {
        let mut r = render_u16(self.code);
        let sp = " ";
        proof {
            reveal_strlit(" ");
            assert(sp@ =~= seq![' ']);
        }
        r.append(sp);
        r.append(self.message.as_str());
        proof {
            assert(r@ =~= spec_render_status(self@));
        }
        r
    }
}

/// How a status line of the form `<code> <reason>` decodes: the first
/// token must be an unsigned 16-bit decimal code, the second is the
/// reason, and further tokens are ignored.
pub open spec fn spec_parse_status(s: Seq<char>) -> Option<StatusData> {
    let toks = split_on(s, ' ');
    if toks.len() < 2 {
        None
    } else {
        match spec_parse_u16(toks[0]) {
            Some(c) => Some(StatusData { code: c, message: toks[1] }),
            None => None,
        }
    }
}

impl HttpStatusGroup {
    /// Compares two groups for equality.
    pub fn eq_group(&self, other: &HttpStatusGroup) -> (r: bool)
        ensures
            r == (*self == *other),
    {
        match (self, other) {
            (HttpStatusGroup::Informational, HttpStatusGroup::Informational) => true,
            (HttpStatusGroup::Successful, HttpStatusGroup::Successful) => true,
            (HttpStatusGroup::Redirection, HttpStatusGroup::Redirection) => true,
            (HttpStatusGroup::ClientError, HttpStatusGroup::ClientError) => true,
            (HttpStatusGroup::ServerError, HttpStatusGroup::ServerError) => true,
            (HttpStatusGroup::Unknown, HttpStatusGroup::Unknown) => true,
            _ => false,
        }
    }
}

impl Destruct for HttpStatus {
    type Item = (u16, String);

    open spec fn destruct_rel(self, r: (u16, String)) -> bool {
        r.0 == self.code && r.1 == self.message
    }

    /// Destructs into the code and the reason phrase.
    fn destruct(self) -> (r: (u16, String)) {
        (self.code, self.message)
    }
}

} // verus!
