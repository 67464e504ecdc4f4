//! Reading an HTTP request off the dashboard's socket: where the head ends,
//! when a request is too large, what its head says (method, path,
//! credentials and body length) and which bytes are its body.
use crate::text::{
    all_ascii_digits, ascii_lower, chars_of, digit_chars_value, is_ascii_digit, is_white_space,
    lemma_char_digits_grow, lower_chars, trim_chars, trim_end_chars, trim_start_chars, unsigned_digits,
};
use vstd::prelude::*;
use vstd::string::*;

verus! {

/// The most bytes a request may occupy.
pub const MAX_REQUEST_BYTES: usize = 1_048_576;

#[derive(Debug, Clone, Copy, PartialEq, Eq, Structural)]
pub enum RequestError {
    ReadFailed,
    Closed,
    TooLarge,
    InvalidHeaders,
    MissingRequestLine,
    MissingMethod,
    MissingPath,
    BodyReadFailed,
    BodyClosed,
}

impl RequestError {
    pub open spec fn text(self) -> Seq<char> {
        match self {
            RequestError::ReadFailed => "request read failed"@,
            RequestError::Closed => "request closed"@,
            RequestError::TooLarge => "request too large"@,
            RequestError::InvalidHeaders => "invalid headers"@,
            RequestError::MissingRequestLine => "missing request line"@,
            RequestError::MissingMethod => "missing method"@,
            RequestError::MissingPath => "missing path"@,
            RequestError::BodyReadFailed => "request body read failed"@,
            RequestError::BodyClosed => "request body closed"@,
        }
    }

    pub fn message(&self) -> (r: &'static str)
        ensures
            r@ == self.text(),
    {
        match self {
            RequestError::ReadFailed => "request read failed",
            RequestError::Closed => "request closed",
            RequestError::TooLarge => "request too large",
            RequestError::InvalidHeaders => "invalid headers",
            RequestError::MissingRequestLine => "missing request line",
            RequestError::MissingMethod => "missing method",
            RequestError::MissingPath => "missing path",
            RequestError::BodyReadFailed => "request body read failed",
            RequestError::BodyClosed => "request body closed",
        }
    }
}

/// `\r\n\r\n` starts at `i`.
pub open spec fn blank_line_at(b: Seq<u8>, i: int) -> bool {
    0 <= i && i + 4 <= b.len() && b[i] == 13 && b[i + 1] == 10 && b[i + 2] == 13 && b[i + 3] == 10
}

/// The first `\r\n\r\n` at or after `from`.
pub open spec fn blank_line_from(b: Seq<u8>, from: int) -> Option<int>
    decreases b.len() - from,
{
    if from < 0 || from + 4 > b.len() {
        None
    } else if blank_line_at(b, from) {
        Some(from)
    } else {
        blank_line_from(b, from + 1)
    }
}

/// Where the head ends: the index of the first `\r\n\r\n`.
pub fn find_head_end(b: &[u8]) -> (r: Option<usize>)
    ensures
        r == (match blank_line_from(b@, 0) {
            Some(i) => Some(i as usize),
            None => None::<usize>,
        }),
{
    let n = b.len();
    let mut i: usize = 0;
    while n >= 4 && i <= n - 4
        invariant
            n == b@.len(),
            i <= n,
            blank_line_from(b@, 0) == blank_line_from(b@, i as int),
        decreases n - i,
    {
        if b[i] == 13 && b[i + 1] == 10 && b[i + 2] == 13 && b[i + 3] == 10 {
            return Some(i);
        }
        i = i + 1;
    }
    None
}

/// Where reading the head stands after a chunk was added.
#[derive(Debug, Clone, Copy, PartialEq, Eq, Structural)]
pub enum HeadProgress {
    NeedMore,
    TooLarge,
    /// The head ends at this index.
    Complete(usize),
}

/// Past the size limit the request is refused; otherwise the head is
/// complete once a blank line has arrived.
pub fn head_progress(b: &[u8]) -> (r: HeadProgress)
    ensures
        b@.len() > MAX_REQUEST_BYTES ==> r == HeadProgress::TooLarge,
        b@.len() <= MAX_REQUEST_BYTES ==> r == (match blank_line_from(b@, 0) {
            Some(i) => HeadProgress::Complete(i as usize),
            None => HeadProgress::NeedMore,
        }),
{
    if b.len() > MAX_REQUEST_BYTES {
        return HeadProgress::TooLarge;
    }
    match find_head_end(b) {
        Some(i) => HeadProgress::Complete(i),
        None => HeadProgress::NeedMore,
    }
}

/// Where reading the body stands.
#[derive(Debug, Clone, Copy, PartialEq, Eq, Structural)]
pub enum BodyProgress {
    NeedMore,
    TooLarge,
    Complete,
}

/// The body is complete once `content_length` bytes follow the blank line;
/// a chunk that takes the request past the size limit refuses it.
pub open spec fn body_progress_spec(
    len: nat,
    head_end: nat,
    content_length: nat,
    after_read: bool,
) -> BodyProgress {
    if after_read && len > MAX_REQUEST_BYTES {
        BodyProgress::TooLarge
    } else if len >= head_end + 4 + content_length {
        BodyProgress::Complete
    } else {
        BodyProgress::NeedMore
    }
}

pub fn body_progress(len: usize, head_end: usize, content_length: usize, after_read: bool) -> (r:
    BodyProgress)
    ensures
        r == body_progress_spec(len as nat, head_end as nat, content_length as nat, after_read),
{
    if after_read && len > MAX_REQUEST_BYTES {
        return BodyProgress::TooLarge;
    }
    if len < 4 || len - 4 < head_end {
        return BodyProgress::NeedMore;
    }
    if len - 4 - head_end >= content_length {
        BodyProgress::Complete
    } else {
        BodyProgress::NeedMore
    }
}

/// The body: the `content_length` bytes after the blank line.
pub fn request_body(b: &[u8], head_end: usize, content_length: usize) -> (r: Vec<u8>)
    requires
        head_end + 4 + content_length <= b@.len(),
    ensures
        r@ == b@.subrange(head_end + 4, head_end + 4 + content_length),
{
    let n = b.len();
    let start = head_end + 4;
    let mut out: Vec<u8> = Vec::new();
    let mut i: usize = 0;
    while i < content_length
        invariant
            start == head_end + 4,
            n == b@.len(),
            start + content_length <= n,
            i <= content_length,
            out@ == b@.subrange(start as int, start + i),
        decreases content_length - i,
    {
        out.push(b[start + i]);
        assert(out@ =~= b@.subrange(start as int, start + i + 1));
        i = i + 1;
    }
    out
}


/// Calls `std::str::from_utf8`, which accepts exactly the well-formed
/// UTF-8 byte strings, and copies the text out.
#[verifier::external_body]
fn utf8_text(b: &[u8]) -> (r: Option<String>)
    ensures
        r is Some <==> vstd::utf8::valid_utf8(b@),
        r matches Some(s) ==> s@ == vstd::utf8::decode_utf8(b@),
{
    match std::str::from_utf8(b) {
        Ok(s) => Some(s.to_owned()),
        Err(_) => None,
    }
}

fn is_ws(c: char) -> (r: bool)
    ensures
        r == is_white_space(c),
{
    let v = c as u32;
    (0x09 <= v && v <= 0x0D) || v == 0x20 || v == 0x85 || v == 0xA0 || v == 0x1680 || (0x2000 <= v
        && v <= 0x200A) || v == 0x2028 || v == 0x2029 || v == 0x202F || v == 0x205F || v == 0x3000
}

fn lower(c: char) -> (r: char)
    ensures
        r == ascii_lower(c),
{
    if 'A' <= c && c <= 'Z' {
        ((c as u8) + 32) as char
    } else {
        c
    }
}

/// A line without the `\r` of a `\r\n` ending.
pub open spec fn strip_cr(line: Seq<char>) -> Seq<char> {
    if line.len() > 0 && line.last() == '\r' {
        line.drop_last()
    } else {
        line
    }
}

/// The lines of `s` from position `i`, the current one having begun at
/// `start`: split at `\n`, without a `\r` before it, and with no empty line
/// after a final `\n`.
pub open spec fn lines_scan(s: Seq<char>, start: int, i: int) -> Seq<Seq<char>>
    decreases s.len() - i,
{
    if i >= s.len() {
        if start < s.len() {
            seq![s.subrange(start, s.len() as int)]
        } else {
            Seq::empty()
        }
    } else if s[i] == '\n' {
        seq![strip_cr(s.subrange(start, i))] + lines_scan(s, i + 1, i + 1)
    } else {
        lines_scan(s, start, i + 1)
    }
}

/// The lines `str::lines` yields.
pub open spec fn text_lines(s: Seq<char>) -> Seq<Seq<char>> {
    lines_scan(s, 0, 0)
}

/// The first index at or after `i` that is not white space.
pub open spec fn skip_ws(s: Seq<char>, i: int) -> int
    decreases s.len() - i,
{
    if i < 0 || i >= s.len() {
        s.len() as int
    } else if is_white_space(s[i]) {
        skip_ws(s, i + 1)
    } else {
        i
    }
}

/// The first index at or after `i` that is white space.
pub open spec fn token_end(s: Seq<char>, i: int) -> int
    decreases s.len() - i,
{
    if i < 0 || i >= s.len() {
        s.len() as int
    } else if is_white_space(s[i]) {
        i
    } else {
        token_end(s, i + 1)
    }
}

/// The first `:` at or after `i`.
pub open spec fn first_colon(s: Seq<char>, i: int) -> Option<int>
    decreases s.len() - i,
{
    if i < 0 || i >= s.len() {
        None
    } else if s[i] == ':' {
        Some(i)
    } else {
        first_colon(s, i + 1)
    }
}

/// The trimmed value of a `name: value` line whose name matches the
/// lower-case `name` without regard to ASCII case.
pub open spec fn named_value(line: Seq<char>, name: Seq<char>) -> Option<Seq<char>> {
    match first_colon(line, 0) {
        None => None,
        Some(k) => if lower_chars(line.subrange(0, k)) == name {
            Some(trim_chars(line.subrange(k + 1, line.len() as int)))
        } else {
            None
        },
    }
}

/// The value of the first header line from `from` on named `name`.
pub open spec fn find_header(lines: Seq<Seq<char>>, name: Seq<char>, from: int) -> Option<Seq<char>>
    decreases lines.len() - from,
{
    if from < 0 || from >= lines.len() {
        None
    } else {
        match named_value(lines[from], name) {
            Some(v) => Some(v),
            None => find_header(lines, name, from + 1),
        }
    }
}

/// `usize::from_str`: an optional `+` and at least one digit, within range.
pub open spec fn parse_usize_spec(v: Seq<char>) -> Option<nat> {
    let d = unsigned_digits(v);
    if d.len() > 0 && all_ascii_digits(d) && digit_chars_value(d) <= usize::MAX {
        Some(digit_chars_value(d))
    } else {
        None
    }
}

/// The first `Content-Length` line from `from` on whose value parses.
pub open spec fn find_length(lines: Seq<Seq<char>>, from: int) -> Option<nat>
    decreases lines.len() - from,
{
    if from < 0 || from >= lines.len() {
        None
    } else {
        match named_value(lines[from], "content-length"@) {
            Some(v) => match parse_usize_spec(v) {
                Some(n) => Some(n),
                None => find_length(lines, from + 1),
            },
            None => find_length(lines, from + 1),
        }
    }
}

pub struct HeadView {
    pub method: Seq<char>,
    pub path: Seq<char>,
    pub authorization: Option<Seq<char>>,
    pub tenant_id: Option<Seq<char>>,
    pub content_length: nat,
}

/// What a request head says: the first two words of its first line, the
/// `Authorization` and `X-AnchorBell-Tenant` values, and the body length
/// (0 when no `Content-Length` value parses).
pub open spec fn head_spec(h: Seq<char>) -> Result<HeadView, RequestError> {
    let ls = text_lines(h);
    if ls.len() == 0 {
        Err(RequestError::MissingRequestLine)
    } else {
        let rl = ls[0];
        let a = skip_ws(rl, 0);
        let b = token_end(rl, a);
        let c = skip_ws(rl, b);
        let d = token_end(rl, c);
        if a >= rl.len() {
            Err(RequestError::MissingMethod)
        } else if c >= rl.len() {
            Err(RequestError::MissingPath)
        } else {
            Ok(
                HeadView {
                    method: rl.subrange(a, b),
                    path: rl.subrange(c, d),
                    authorization: find_header(ls, "authorization"@, 1),
                    tenant_id: find_header(ls, "x-anchorbell-tenant"@, 1),
                    content_length: match find_length(ls, 1) {
                        Some(n) => n,
                        None => 0,
                    },
                },
            )
        }
    }
}

/// A request head as the dashboard reads it.
#[derive(Debug, Clone, PartialEq, Eq)]
pub struct RequestHead {
    pub method: String,
    pub path: String,
    pub authorization: Option<String>,
    pub tenant_id: Option<String>,
    pub content_length: usize,
}

pub open spec fn head_view(h: RequestHead) -> HeadView {
    HeadView {
        method: h.method@,
        path: h.path@,
        authorization: match h.authorization {
            Some(s) => Some(s@),
            None => None,
        },
        tenant_id: match h.tenant_id {
            Some(s) => Some(s@),
            None => None,
        },
        content_length: h.content_length as nat,
    }
}

pub open spec fn head_result_view(r: Result<RequestHead, RequestError>) -> Result<HeadView, RequestError> {
    match r {
        Ok(h) => Ok(head_view(h)),
        Err(e) => Err(e),
    }
}

pub open spec fn spans_view(s: Seq<char>, spans: Seq<(usize, usize)>) -> Seq<Seq<char>> {
    spans.map_values(|p: (usize, usize)| s.subrange(p.0 as int, p.1 as int))
}

pub open spec fn spans_bounded(spans: Seq<(usize, usize)>, n: nat) -> bool {
    forall|k: int| 0 <= k < spans.len() ==> #[trigger] spans[k].0 <= spans[k].1 <= n
}

#[verifier::spinoff_prover]
#[verifier::rlimit(40)]
fn line_spans(cs: &Vec<char>) -> (r: Vec<(usize, usize)>)
    ensures
        spans_view(cs@, r@) == text_lines(cs@),
        spans_bounded(r@, cs@.len()),
{
    let ghost s = cs@;
    let n = cs.len();
    let mut out: Vec<(usize, usize)> = Vec::new();
    let mut start: usize = 0;
    let mut i: usize = 0;
    while i < n
        invariant
            s == cs@,
            n == s.len(),
            start <= i <= n,
            text_lines(s) == spans_view(s, out@) + lines_scan(s, start as int, i as int),
            spans_bounded(out@, n as nat),
        decreases n - i,
    {
        if cs[i] == '\n' {
            let end = if i > start && cs[i - 1] == '\r' { i - 1 } else { i };
            assert(strip_cr(s.subrange(start as int, i as int)) =~= s.subrange(start as int, end as int));
            let ghost before = out@;
            out.push((start, end));
            assert forall|k: int| 0 <= k < out@.len() implies #[trigger] out@[k].0 <= out@[k].1 <= n by {
                if k < before.len() {
                    assert(out@[k] == before[k]);
                }
            }
            assert(spans_view(s, out@) =~= spans_view(s, before).push(s.subrange(start as int, end as int)));
            assert(spans_view(s, before) + lines_scan(s, start as int, i as int) =~= spans_view(s, out@)
                + lines_scan(s, i + 1, i + 1));
            start = i + 1;
        }
        i = i + 1;
    }
    if start < n {
        let ghost before = out@;
        out.push((start, n));
        assert(spans_view(s, out@) =~= spans_view(s, before).push(s.subrange(start as int, n as int)));
        assert(spans_view(s, before) + lines_scan(s, start as int, n as int) =~= spans_view(s, out@));
    } else {
        assert(spans_view(s, out@) + lines_scan(s, start as int, n as int) =~= spans_view(s, out@));
    }
    out
}

/// White space skipped from `j` on, within `cs[a..b]`.
fn skip_ws_in(cs: &Vec<char>, a: usize, b: usize, j: usize) -> (r: usize)
    requires
        a <= b <= cs@.len(),
        j <= b - a,
    ensures
        r == skip_ws(cs@.subrange(a as int, b as int), j as int),
        j <= r <= b - a,
{
    let ghost line = cs@.subrange(a as int, b as int);
    let mut k = j;
    while k < b - a && is_ws(cs[a + k])
        invariant
            a <= b <= cs@.len(),
            j <= k <= b - a,
            line == cs@.subrange(a as int, b as int),
            skip_ws(line, j as int) == skip_ws(line, k as int),
        decreases b - a - k,
    {
        assert(line[k as int] == cs@[a + k]);
        k = k + 1;
    }
    if k < b - a {
        assert(line[k as int] == cs@[a + k]);
    }
    k
}

/// The end of the token that begins at `j`, within `cs[a..b]`.
fn token_end_in(cs: &Vec<char>, a: usize, b: usize, j: usize) -> (r: usize)
    requires
        a <= b <= cs@.len(),
        j <= b - a,
    ensures
        r == token_end(cs@.subrange(a as int, b as int), j as int),
        j <= r <= b - a,
{
    let ghost line = cs@.subrange(a as int, b as int);
    let mut k = j;
    while k < b - a && !is_ws(cs[a + k])
        invariant
            a <= b <= cs@.len(),
            j <= k <= b - a,
            line == cs@.subrange(a as int, b as int),
            token_end(line, j as int) == token_end(line, k as int),
        decreases b - a - k,
    {
        assert(line[k as int] == cs@[a + k]);
        k = k + 1;
    }
    if k < b - a {
        assert(line[k as int] == cs@[a + k]);
    }
    k
}

proof fn lemma_trim_start(x: Seq<char>, k: int)
    requires
        0 <= k <= x.len(),
        forall|j: int| 0 <= j < k ==> is_white_space(#[trigger] x[j]),
        k == x.len() || !is_white_space(x[k]),
    ensures
        trim_start_chars(x) == x.subrange(k, x.len() as int),
    decreases k,
{
    if k == 0 {
        assert(x.subrange(0, x.len() as int) =~= x);
    } else {
        let y = x.drop_first();
        assert forall|j: int| 0 <= j < k - 1 implies is_white_space(#[trigger] y[j]) by {
            assert(y[j] == x[j + 1]);
        }
        if k - 1 < y.len() {
            assert(y[k - 1] == x[k]);
        }
        lemma_trim_start(y, k - 1);
        assert(y.subrange(k - 1, y.len() as int) =~= x.subrange(k, x.len() as int));
    }
}

proof fn lemma_trim_end(x: Seq<char>, k: int)
    requires
        0 <= k <= x.len(),
        forall|j: int| k <= j < x.len() ==> is_white_space(#[trigger] x[j]),
        k == 0 || !is_white_space(x[k - 1]),
    ensures
        trim_end_chars(x) == x.subrange(0, k),
    decreases x.len() - k,
{
    if k == x.len() {
        assert(x.subrange(0, k) =~= x);
    } else {
        let y = x.drop_last();
        assert forall|j: int| k <= j < y.len() implies is_white_space(#[trigger] y[j]) by {
            assert(y[j] == x[j]);
        }
        if k > 0 {
            assert(y[k - 1] == x[k - 1]);
        }
        lemma_trim_end(y, k);
        assert(y.subrange(0, k) =~= x.subrange(0, k));
    }
}

/// Whether `cs[a..b]`, ASCII lower-cased, is `name`.
fn lower_equals(cs: &Vec<char>, a: usize, b: usize, name: &str) -> (r: bool)
    requires
        a <= b <= cs@.len(),
    ensures
        r == (lower_chars(cs@.subrange(a as int, b as int)) == name@),
{
    let ghost x = cs@.subrange(a as int, b as int);
    let k = name.unicode_len();
    if k != b - a {
        assert(lower_chars(x).len() != name@.len());
        return false;
    }
    let mut j: usize = 0;
    while j < k
        invariant
            a <= b <= cs@.len(),
            k == b - a,
            k == name@.len(),
            x == cs@.subrange(a as int, b as int),
            forall|i: int| 0 <= i < j ==> #[trigger] lower_chars(x)[i] == name@[i],
            j <= k,
        decreases k - j,
    {
        let c = lower(cs[a + j]);
        assert(x[j as int] == cs@[a + j]);
        if c != name.get_char(j) {
            assert(lower_chars(x)[j as int] != name@[j as int]);
            return false;
        }
        j = j + 1;
    }
    assert(lower_chars(x) =~= name@);
    true
}

/// The trimmed value of `cs[a..b]` as a `name: value` line, as a span.
#[verifier::spinoff_prover]
#[verifier::rlimit(40)]
fn named_value_in(cs: &Vec<char>, a: usize, b: usize, name: &str) -> (r: Option<(usize, usize)>)
    requires
        a <= b <= cs@.len(),
    ensures
        match r {
            None => named_value(cs@.subrange(a as int, b as int), name@) is None,
            Some((x, y)) => a <= x <= y <= b && named_value(cs@.subrange(a as int, b as int), name@)
                == Some(cs@.subrange(x as int, y as int)),
        },
{
    let ghost line = cs@.subrange(a as int, b as int);
    let mut k: usize = 0;
    while k < b - a && cs[a + k] != ':'
        invariant
            a <= b <= cs@.len(),
            k <= b - a,
            line == cs@.subrange(a as int, b as int),
            first_colon(line, 0) == first_colon(line, k as int),
        decreases b - a - k,
    {
        assert(line[k as int] == cs@[a + k]);
        k = k + 1;
    }
    if k == b - a {
        return None;
    }
    assert(line[k as int] == cs@[a + k]);
    assert(line.subrange(0, k as int) =~= cs@.subrange(a as int, (a + k) as int));
    if !lower_equals(cs, a, a + k, name) {
        return None;
    }
    let v0 = a + k + 1;
    let ghost value = line.subrange(k + 1, line.len() as int);
    assert(value =~= cs@.subrange(v0 as int, b as int));
    let x = v0 + skip_ws_in(cs, v0, b, 0);
    let ghost kx = (x - v0) as int;
    proof {
        lemma_skip_ws_facts(value, 0);
        lemma_trim_start(value, kx);
    }
    let mut y = b;
    while y > x && is_ws(cs[y - 1])
        invariant
            v0 <= x <= y <= b <= cs@.len(),
            forall|j: int| y <= j < b ==> is_white_space(#[trigger] cs@[j]),
        decreases y - x,
    {
        y = y - 1;
    }
    proof {
        let tail = value.subrange(kx, value.len() as int);
        assert(tail =~= cs@.subrange(x as int, b as int));
        assert forall|j: int| (y - x) <= j < tail.len() implies is_white_space(#[trigger] tail[j]) by {
            assert(tail[j] == cs@[x + j]);
        }
        if y > x {
            assert(tail[y - x - 1] == cs@[y - 1]);
        }
        lemma_trim_end(tail, (y - x) as int);
        assert(tail.subrange(0, (y - x) as int) =~= cs@.subrange(x as int, y as int));
    }
    Some((x, y))
}

proof fn lemma_skip_ws_facts(s: Seq<char>, i: int)
    requires
        0 <= i <= s.len(),
    ensures
        i <= skip_ws(s, i) <= s.len(),
        forall|j: int| i <= j < skip_ws(s, i) ==> is_white_space(#[trigger] s[j]),
        skip_ws(s, i) == s.len() || !is_white_space(s[skip_ws(s, i)]),
    decreases s.len() - i,
{
    if i < s.len() && is_white_space(s[i]) {
        lemma_skip_ws_facts(s, i + 1);
    }
}


/// `usize::from_str` over `cs[x..y]`.
fn parse_usize_in(cs: &Vec<char>, x: usize, y: usize) -> (r: Option<usize>)
    requires
        x <= y <= cs@.len(),
    ensures
        match r {
            Some(v) => parse_usize_spec(cs@.subrange(x as int, y as int)) == Some(v as nat),
            None => parse_usize_spec(cs@.subrange(x as int, y as int)) is None,
        },
{
    let ghost v = cs@.subrange(x as int, y as int);
    let mut i = x;
    if i < y && cs[i] == '+' {
        i = i + 1;
    }
    let ghost d = cs@.subrange(i as int, y as int);
    assert(d =~= unsigned_digits(v));
    if i == y {
        return None;
    }
    let mut acc: usize = 0;
    let mut j = i;
    while j < y
        invariant
            x <= i <= j <= y <= cs@.len(),
            i < y,
            v == cs@.subrange(x as int, y as int),
            d == cs@.subrange(i as int, y as int),
            d == unsigned_digits(v),
            forall|t: int| 0 <= t < j - i ==> is_ascii_digit(#[trigger] d[t]),
            acc == digit_chars_value(d.subrange(0, j - i)),
        decreases y - j,
    {
        let c = cs[j];
        assert(d[j - i] == c);
        if !('0' <= c && c <= '9') {
            assert(!all_ascii_digits(d)) by {
                assert(!is_ascii_digit(d[j - i]));
            }
            return None;
        }
        let digit = ((c as u32) - 48) as usize;
        assert(d.subrange(0, j - i + 1).drop_last() =~= d.subrange(0, j - i));
        if acc > (usize::MAX - digit) / 10 {
            proof {
                assert(acc * 10 + digit > usize::MAX) by (nonlinear_arith)
                    requires
                        acc > (usize::MAX - digit) / 10,
                        digit <= 9,
                ;
                if all_ascii_digits(d) {
                    lemma_char_digits_grow(d, j - i + 1);
                }
            }
            return None;
        }
        assert(acc * 10 + digit <= usize::MAX) by (nonlinear_arith)
            requires
                acc <= (usize::MAX - digit) / 10,
                digit <= 9,
        ;
        acc = acc * 10 + digit;
        j = j + 1;
    }
    assert(d.subrange(0, j - i) =~= d);
    Some(acc)
}

pub open spec fn opt_string_view(o: Option<String>) -> Option<Seq<char>> {
    match o {
        Some(s) => Some(s@),
        None => None,
    }
}

fn find_header_in(h: &str, cs: &Vec<char>, spans: &Vec<(usize, usize)>, name: &str) -> (r: Option<String>)
    requires
        h@ == cs@,
        spans_view(cs@, spans@) == text_lines(cs@),
        spans_bounded(spans@, cs@.len()),
    ensures
        opt_string_view(r) == find_header(text_lines(cs@), name@, 1),
{
    let ghost ls = text_lines(cs@);
    let mut k: usize = 1;
    while k < spans.len()
        invariant
            h@ == cs@,
            ls == text_lines(cs@),
            spans_view(cs@, spans@) == ls,
            spans_bounded(spans@, cs@.len()),
            1 <= k,
            find_header(ls, name@, 1) == find_header(ls, name@, k as int),
        decreases spans@.len() - k,
    {
        let (a, b) = spans[k];
        assert(spans@[k as int].0 <= spans@[k as int].1 <= cs@.len());
        assert(ls[k as int] == cs@.subrange(a as int, b as int));
        match named_value_in(cs, a, b, name) {
            Some((x, y)) => {
                let v = crate::text::owned(h.substring_char(x, y));
                return Some(v);
            },
            None => {},
        }
        k = k + 1;
    }
    None
}

fn find_length_in(cs: &Vec<char>, spans: &Vec<(usize, usize)>) -> (r: Option<usize>)
    requires
        spans_view(cs@, spans@) == text_lines(cs@),
        spans_bounded(spans@, cs@.len()),
    ensures
        match r {
            Some(n) => find_length(text_lines(cs@), 1) == Some(n as nat),
            None => find_length(text_lines(cs@), 1) is None,
        },
{
    let ghost ls = text_lines(cs@);
    let mut k: usize = 1;
    while k < spans.len()
        invariant
            ls == text_lines(cs@),
            spans_view(cs@, spans@) == ls,
            spans_bounded(spans@, cs@.len()),
            1 <= k,
            find_length(ls, 1) == find_length(ls, k as int),
        decreases spans@.len() - k,
    {
        let (a, b) = spans[k];
        assert(spans@[k as int].0 <= spans@[k as int].1 <= cs@.len());
        assert(ls[k as int] == cs@.subrange(a as int, b as int));
        match named_value_in(cs, a, b, "content-length") {
            Some((x, y)) => {
                match parse_usize_in(cs, x, y) {
                    Some(n) => {
                        return Some(n);
                    },
                    None => {},
                }
            },
            None => {},
        }
        k = k + 1;
    }
    None
}

/// Reads a request head from its text.
#[verifier::spinoff_prover]
#[verifier::rlimit(40)]
pub fn parse_head(h: &str) -> (r: Result<RequestHead, RequestError>)
    ensures
        head_result_view(r) == head_spec(h@),
{
    let cs = chars_of(h);
    let spans = line_spans(&cs);
    let ghost ls = text_lines(cs@);
    if spans.len() == 0 {
        return Err(RequestError::MissingRequestLine);
    }
    let (a0, b0) = spans[0];
    assert(spans@[0].0 <= spans@[0].1 <= cs@.len());
    let ghost rl = cs@.subrange(a0 as int, b0 as int);
    assert(ls[0] == rl);
    let a = skip_ws_in(&cs, a0, b0, 0);
    if a >= b0 - a0 {
        return Err(RequestError::MissingMethod);
    }
    let b = token_end_in(&cs, a0, b0, a);
    let c = skip_ws_in(&cs, a0, b0, b);
    if c >= b0 - a0 {
        return Err(RequestError::MissingPath);
    }
    let d = token_end_in(&cs, a0, b0, c);
    assert(rl.subrange(a as int, b as int) =~= cs@.subrange(a0 + a, a0 + b));
    assert(rl.subrange(c as int, d as int) =~= cs@.subrange(a0 + c, a0 + d));
    let method = crate::text::owned(h.substring_char(a0 + a, a0 + b));
    let path = crate::text::owned(h.substring_char(a0 + c, a0 + d));
    let authorization = find_header_in(h, &cs, &spans, "authorization");
    let tenant_id = find_header_in(h, &cs, &spans, "x-anchorbell-tenant");
    let content_length = match find_length_in(&cs, &spans) {
        Some(n) => n,
        None => 0,
    };
    Ok(RequestHead { method, path, authorization, tenant_id, content_length })
}

/// Reads the head that ends at `head_end`: it must be UTF-8 text.
pub fn read_head(b: &[u8], head_end: usize) -> (r: Result<RequestHead, RequestError>)
    requires
        head_end <= b@.len(),
    ensures
        !vstd::utf8::valid_utf8(b@.subrange(0, head_end as int)) ==> r == Err::<RequestHead, RequestError>(
            RequestError::InvalidHeaders,
        ),
        vstd::utf8::valid_utf8(b@.subrange(0, head_end as int)) ==> head_result_view(r) == head_spec(
            vstd::utf8::decode_utf8(b@.subrange(0, head_end as int)),
        ),
{
    let mut head: Vec<u8> = Vec::new();
    let mut i: usize = 0;
    while i < head_end
        invariant
            head_end <= b@.len(),
            i <= head_end,
            head@ == b@.subrange(0, i as int),
        decreases head_end - i,
    {
        head.push(b[i]);
        assert(head@ =~= b@.subrange(0, i + 1));
        i = i + 1;
    }
    match utf8_text(head.as_slice()) {
        None => Err(RequestError::InvalidHeaders),
        Some(text) => parse_head(text.as_str()),
    }
}

} // verus!
