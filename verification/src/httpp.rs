//! A narrow HTTP/1.1 codec: request and response messages as byte buffers,
//! lookup of a fixed set of headers, and parsers that run over the bytes a
//! peer has sent.

use vstd::prelude::*;
use crate::text::opt_text;
use crate::octets::{lemma_ascii_bytes, lemma_dec_digits_are_digits, lemma_dec_round_trip, all_digits, append, copy_range, same_bytes, crlf, dec_digits, dec_value, lower, lowered, parse_decimal, push_decimal, to_lower, utf8, CR, LF, SP};

verus! {

/// What can go wrong with an HTTP message.
#[derive(Debug, PartialEq, Eq, Structural, Clone, Copy)]
pub enum HttpError {
    Buggy,
    InvalidHttpData,
    InvalidHttpVersion,
    InvalidContentLength,
    HeaderNotExistContentLength,
    HeaderNotExistContentType,
    HeaderNotExistReqUri,
    HeaderNotExistConnection,
    HeaderNotExistUpgrade,
    HeaderNotExistHost,
    HeaderNotExistWsKey,
    HeaderNotExistWsVer,
    HeaderNotExistWsAccept,
    PersistBodyPathAbsent,
    PersistBodyPathNotFound,
    PersistBodyWrite,
    IncompleteFinish,
}

// ---------------------------------------------------------------- headers --

/// One header line: the name, a colon and a space, the value, CRLF.
pub open spec fn header_line(name: Seq<char>, value: Seq<u8>) -> Seq<u8> {
    utf8(name) + seq![58u8, SP] + value + crlf()
}

/// Whether `name`, as written or all in small letters, stands in `h` at `i`.
pub open spec fn name_at(h: Seq<u8>, name: Seq<u8>, i: int) -> bool {
    0 <= i && i + name.len() <= h.len() && (h.subrange(i, i + name.len()) == name || h.subrange(
        i,
        i + name.len(),
    ) == lowered(name))
}

/// The first position at or after `from` where `name` stands in `h`.
pub open spec fn find_name(h: Seq<u8>, name: Seq<u8>, from: int) -> Option<int>
    decreases h.len() - from + 1,
{
    if from < 0 || from + name.len() > h.len() {
        None
    } else if name_at(h, name, from) {
        Some(from)
    } else {
        find_name(h, name, from + 1)
    }
}

/// The first position at or after `from` that holds no space.
pub open spec fn skip_spaces(h: Seq<u8>, from: int) -> int
    decreases h.len() - from,
{
    if 0 <= from < h.len() && h[from] == SP {
        skip_spaces(h, from + 1)
    } else {
        from
    }
}

/// Whether a CRLF pair starts at `i`.
pub open spec fn crlf_at(h: Seq<u8>, i: int) -> bool {
    0 <= i && i + 1 < h.len() && h[i] == CR && h[i + 1] == LF
}

/// The first position at or after `from` where a CRLF pair starts.
pub open spec fn find_crlf(h: Seq<u8>, from: int) -> Option<int>
    decreases h.len() - from,
{
    if from < 0 || from + 2 > h.len() {
        None
    } else if crlf_at(h, from) {
        Some(from)
    } else {
        find_crlf(h, from + 1)
    }
}

/// The end of `h[lo..hi]` once the spaces at its end are taken off.
pub open spec fn trim_end(h: Seq<u8>, lo: int, hi: int) -> int
    decreases hi - lo,
{
    if lo < hi <= h.len() && h[hi - 1] == SP {
        trim_end(h, lo, hi - 1)
    } else {
        hi
    }
}

/// What a search for a header finds.
pub enum Lookup {
    /// The value lies in `h[begin..end]` and is not empty.
    Value(int, int),
    /// The name does not occur, or the value at its first occurrence is empty.
    Absent,
    /// No CRLF follows the first occurrence of the name.
    Unterminated,
}

/// The value of the header `name` (colon included) in the header block `h`.
///
/// The name counts wherever it first occurs, as written or all in small
/// letters. The value starts after the spaces that follow the name and ends
/// before the next CRLF, less the spaces that precede it.
pub open spec fn lookup(h: Seq<u8>, name: Seq<u8>) -> Lookup {
    match find_name(h, name, 0) {
        None => Lookup::Absent,
        Some(i) => {
            let b = skip_spaces(h, i + name.len());
            match find_crlf(h, b) {
                None => Lookup::Unterminated,
                Some(j) => {
                    let e = trim_end(h, b, j);
                    if b < e {
                        Lookup::Value(b, e)
                    } else {
                        Lookup::Absent
                    }
                },
            }
        },
    }
}

/// What a getter returns for a header, by the outcome of the search.
pub open spec fn header_result(h: Seq<u8>, name: Seq<char>, absent: HttpError) -> Result<
    Seq<u8>,
    HttpError,
> {
    match lookup(h, utf8(name)) {
        Lookup::Value(b, e) => Ok(h.subrange(b, e)),
        Lookup::Absent => Err(absent),
        Lookup::Unterminated => Err(HttpError::InvalidHttpData),
    }
}

/// What the Content-Length getter returns: the value read as a decimal number.
pub open spec fn content_length_result(h: Seq<u8>) -> Result<usize, HttpError> {
    match header_result(h, "Content-Length:"@, HttpError::HeaderNotExistContentLength) {
        Err(e) => Err(e),
        Ok(v) => if all_digits(v) && dec_value(v) <= usize::MAX {
            Ok(dec_value(v) as usize)
        } else {
            Err(HttpError::InvalidContentLength)
        },
    }
}

/// A result that borrows bytes, with the bytes as a sequence.
pub open spec fn bytes_of(r: Result<&[u8], HttpError>) -> Result<Seq<u8>, HttpError> {
    match r {
        Ok(v) => Ok(v@),
        Err(e) => Err(e),
    }
}

proof fn lemma_find_name_bounds(h: Seq<u8>, name: Seq<u8>, from: int)
    ensures
        find_name(h, name, from) matches Some(i) ==> from <= i && name_at(h, name, i),
    decreases h.len() - from + 1,
{
    if from < 0 || from + name.len() > h.len() {
    } else if name_at(h, name, from) {
    } else {
        lemma_find_name_bounds(h, name, from + 1);
    }
}

proof fn lemma_skip_spaces_bounds(h: Seq<u8>, from: int)
    requires
        0 <= from <= h.len(),
    ensures
        from <= skip_spaces(h, from) <= h.len(),
    decreases h.len() - from,
{
    if from < h.len() && h[from] == SP {
        lemma_skip_spaces_bounds(h, from + 1);
    }
}

proof fn lemma_find_crlf_bounds(h: Seq<u8>, from: int)
    ensures
        find_crlf(h, from) matches Some(j) ==> from <= j && crlf_at(h, j),
    decreases h.len() - from,
{
    if from < 0 || from + 2 > h.len() {
    } else if crlf_at(h, from) {
    } else {
        lemma_find_crlf_bounds(h, from + 1);
    }
}

proof fn lemma_trim_end_bounds(h: Seq<u8>, lo: int, hi: int)
    requires
        lo <= hi,
    ensures
        lo <= trim_end(h, lo, hi) <= hi,
    decreases hi - lo,
{
    if lo < hi <= h.len() && h[hi - 1] == SP {
        lemma_trim_end_bounds(h, lo, hi - 1);
    }
}

/// The bounds of a value that `lookup` finds lie inside the header block.
pub proof fn lemma_lookup_bounds(h: Seq<u8>, name: Seq<u8>)
    ensures
        lookup(h, name) matches Lookup::Value(b, e) ==> 0 <= b < e <= h.len(),
{
    lemma_find_name_bounds(h, name, 0);
    if let Some(i) = find_name(h, name, 0) {
        lemma_skip_spaces_bounds(h, i + name.len());
        let b = skip_spaces(h, i + name.len());
        lemma_find_crlf_bounds(h, b);
        if let Some(j) = find_crlf(h, b) {
            lemma_trim_end_bounds(h, b, j);
        }
    }
}

/// `n` spaces.
pub open spec fn spaces(n: nat) -> Seq<u8> {
    Seq::new(n, |i: int| SP)
}

proof fn lemma_find_name_first(h: Seq<u8>, name: Seq<u8>, from: int, i: int)
    requires
        0 <= from <= i,
        name_at(h, name, i),
        forall|k: int| from <= k < i ==> !name_at(h, name, k),
    ensures
        find_name(h, name, from) == Some(i),
    decreases i - from,
{
    if from < i {
        lemma_find_name_first(h, name, from + 1, i);
    }
}

proof fn lemma_skip_spaces_run(h: Seq<u8>, from: int, to: int)
    requires
        0 <= from <= to <= h.len(),
        forall|k: int| from <= k < to ==> h[k] == SP,
        to == h.len() || h[to] != SP,
    ensures
        skip_spaces(h, from) == to,
    decreases to - from,
{
    if from < to {
        lemma_skip_spaces_run(h, from + 1, to);
    }
}

proof fn lemma_find_crlf_first(h: Seq<u8>, from: int, j: int)
    requires
        0 <= from <= j,
        crlf_at(h, j),
        forall|k: int| from <= k < j ==> h[k] != CR,
    ensures
        find_crlf(h, from) == Some(j),
    decreases j - from,
{
    if from < j {
        lemma_find_crlf_first(h, from + 1, j);
    }
}

proof fn lemma_trim_end_run(h: Seq<u8>, lo: int, e: int, hi: int)
    requires
        0 <= lo <= e <= hi <= h.len(),
        forall|k: int| e <= k < hi ==> h[k] == SP,
        e == lo || h[e - 1] != SP,
    ensures
        trim_end(h, lo, hi) == e,
    decreases hi - e,
{
    if e < hi {
        lemma_trim_end_run(h, lo, e, hi - 1);
    }
}

/// Header lookup: a header is found under its name as written or all in
/// small letters, and its value comes without the spaces around it.
///
/// `h` is a header block in which `written`, the name in one of the two
/// capitalizations, stands behind `pre`, followed by `lead` spaces, the
/// value, `trail` spaces and CRLF. Where the name stands nowhere earlier and
/// the value is not empty, neither starts nor ends with a space and holds
/// no CR, the lookup gives the value.
pub proof fn lemma_lookup_finds(
    pre: Seq<u8>,
    name: Seq<u8>,
    written: Seq<u8>,
    lead: nat,
    value: Seq<u8>,
    trail: nat,
    rest: Seq<u8>,
)
    requires
        written == name || written == lowered(name),
        value.len() > 0,
        value.first() != SP,
        value.last() != SP,
        forall|k: int| 0 <= k < value.len() ==> value[k] != CR,
        forall|k: int|
            0 <= k < pre.len() ==> !name_at(
                pre + written + spaces(lead) + value + spaces(trail) + crlf() + rest,
                name,
                k,
            ),
    ensures
        ({
            let h = pre + written + spaces(lead) + value + spaces(trail) + crlf() + rest;
            let b = (pre.len() + name.len() + lead) as int;
            lookup(h, name) == Lookup::Value(b, b + value.len()) && h.subrange(
                b,
                b + value.len(),
            ) == value
        }),
{
    let h = pre + written + spaces(lead) + value + spaces(trail) + crlf() + rest;
    let i = pre.len() as int;
    let n = name.len() as int;
    let b = i + n + lead;
    let e = b + value.len();
    let j = e + trail;
    assert(written.len() == n);
    assert(h.subrange(i, i + n) =~= written);
    lemma_find_name_first(h, name, 0, i);
    assert forall|k: int| i + n <= k < b implies h[k] == SP by {
        assert(h[k] == spaces(lead)[k - i - n]);
    }
    assert(h[b] == value[0]);
    lemma_skip_spaces_run(h, i + n, b);
    assert forall|k: int| b <= k < j implies h[k] != CR by {
        if k < e {
            assert(h[k] == value[k - b]);
        } else {
            assert(h[k] == spaces(trail)[k - e]);
        }
    }
    assert(h[j] == crlf()[0] && h[j + 1] == crlf()[1]);
    lemma_find_crlf_first(h, b, j);
    assert forall|k: int| e <= k < j implies h[k] == SP by {
        assert(h[k] == spaces(trail)[k - e]);
    }
    assert(h[e - 1] == value[value.len() - 1]);
    lemma_trim_end_run(h, b, e, j);
    assert(h.subrange(b, e) =~= value);
}

/// The length of a body is read back: in a header block that holds the
/// line which `msgbody_from_slice` writes for a body of `n` bytes, and
/// where `Content-Length:` stands nowhere before that line, the lookup of
/// the content length gives `n`.
pub proof fn lemma_body_length_is_read(pre: Seq<u8>, n: usize, rest: Seq<u8>)
    requires
        forall|k: int|
            0 <= k < pre.len() ==> !name_at(
                pre + header_line("Content-Length"@, dec_digits(n as nat)) + rest,
                utf8("Content-Length:"@),
                k,
            ),
    ensures
        content_length_result(pre + header_line("Content-Length"@, dec_digits(n as nat)) + rest)
            == Ok::<usize, HttpError>(n),
{
    let a = "Content-Length"@;
    let b = "Content-Length:"@;
    reveal_strlit("Content-Length");
    reveal_strlit("Content-Length:");
    assert(vstd::utf8::is_ascii_chars(a));
    assert(vstd::utf8::is_ascii_chars(b));
    lemma_ascii_bytes(a);
    lemma_ascii_bytes(b);
    let name = utf8(b);
    assert(name =~= utf8(a) + seq![58u8]) by {
        assert forall|i: int| 0 <= i < 15 implies name[i] == (utf8(a) + seq![58u8])[i] by {
            if i < 14 {
                assert(utf8(b)[i] == b[i] as u8);
                assert(utf8(a)[i] == a[i] as u8);
                assert(a[i] == b[i]);
            } else {
                assert(utf8(b)[14] == b[14] as u8);
            }
        }
    }
    let digits = dec_digits(n as nat);
    lemma_dec_digits_are_digits(n as nat);
    lemma_dec_round_trip(n as nat);
    assert(crate::octets::is_digit(digits.first()));
    assert(crate::octets::is_digit(digits.last()));
    let h = pre + header_line(a, digits) + rest;
    assert(h =~= pre + name + spaces(1) + digits + spaces(0) + crlf() + rest);
    lemma_lookup_finds(pre, name, name, 1, digits, 0, rest);
    let at = (pre.len() + name.len() + 1) as int;
    assert(lookup(h, name) == Lookup::Value(at, at + digits.len()));
    assert(h.subrange(at, at + digits.len()) == digits);
}

/// Where a header's value lies, as `locate` reports it.
pub enum Located {
    Value(usize, usize),
    Absent,
    Unterminated,
}

impl Located {
    pub open spec fn view(self) -> Lookup {
        match self {
            Located::Value(b, e) => Lookup::Value(b as int, e as int),
            Located::Absent => Lookup::Absent,
            Located::Unterminated => Lookup::Unterminated,
        }
    }
}

fn matches_at(h: &[u8], name: &[u8], i: usize) -> (r: bool)
    requires
        i + name@.len() <= h@.len(),
    ensures
        r == name_at(h@, name@, i as int),
{
    let n = name.len();
    let len = h.len();
    let mut exact = true;
    let mut small = true;
    let mut k: usize = 0;
    proof {
        assert(h@.subrange(i as int, i + 0) =~= name@.take(0));
        assert(h@.subrange(i as int, i + 0) =~= lowered(name@).take(0));
    }
    while k < n
        invariant
            0 <= k <= n,
            n == name@.len(),
            len == h@.len(),
            i + n <= len,
            exact == (h@.subrange(i as int, i + k) == name@.take(k as int)),
            small == (h@.subrange(i as int, i + k) == lowered(name@).take(k as int)),
        decreases n - k,
    {
        let b = h[i + k];
        let ghost hk = h@.subrange(i as int, i + k);
        let ghost hk1 = h@.subrange(i as int, i + k + 1);
        proof {
            assert(hk1.drop_last() =~= hk);
            assert(hk1.last() == b);
            assert(name@.take(k + 1).drop_last() =~= name@.take(k as int));
            assert(lowered(name@).take(k + 1).drop_last() =~= lowered(name@).take(k as int));
            assert(name@.take(k + 1).last() == name@[k as int]);
            assert(lowered(name@).take(k + 1).last() == lower(name@[k as int]));
        }
        if b != name[k] {
            exact = false;
        }
        if b != to_lower(name[k]) {
            small = false;
        }
        proof {
            if hk == name@.take(k as int) && b == name@[k as int] {
                assert(hk1 =~= name@.take(k + 1));
            }
            if hk == lowered(name@).take(k as int) && b == lower(name@[k as int]) {
                assert(hk1 =~= lowered(name@).take(k + 1));
            }
        }
        k = k + 1;
    }
    proof {
        assert(name@.take(n as int) =~= name@);
        assert(lowered(name@).take(n as int) =~= lowered(name@));
    }
    exact || small
}

/// Finds the value of the header `name` (colon included) in `h`.
pub fn locate(h: &[u8], name: &[u8]) -> (r: Located)
    ensures
        r@ == lookup(h@, name@),
{
    let n = name.len();
    let len = h.len();
    let mut i: usize = 0;
    let mut found = false;
    while !found && n <= len - i
        invariant
            0 <= i <= len,
            len == h@.len(),
            n == name@.len(),
            find_name(h@, name@, 0) == find_name(h@, name@, i as int),
            found ==> n <= len - i && name_at(h@, name@, i as int),
        decreases len - i + (if found { 0int } else { 1int }),
    {
        proof {
            if n == 0 {
                assert(h@.subrange(i as int, i + n) =~= name@);
            }
        }
        if matches_at(h, name, i) {
            found = true;
        } else {
            i = i + 1;
        }
    }
    if !found {
        return Located::Absent;
    }
    let mut b: usize = i + n;
    while b < len && h[b] == SP
        invariant
            i + n <= b <= len,
            len == h@.len(),
            skip_spaces(h@, i + n) == skip_spaces(h@, b as int),
        decreases len - b,
    {
        b = b + 1;
    }
    let mut j: usize = b;
    let mut ended = false;
    while !ended && 2 <= len - j
        invariant
            b <= j <= len,
            len == h@.len(),
            find_crlf(h@, b as int) == find_crlf(h@, j as int),
            ended ==> crlf_at(h@, j as int),
        decreases len - j + (if ended { 0int } else { 1int }),
    {
        if h[j] == CR && h[j + 1] == LF {
            ended = true;
        } else {
            j = j + 1;
        }
    }
    if !ended {
        return Located::Unterminated;
    }
    let mut e: usize = j;
    while b < e && h[e - 1] == SP
        invariant
            b <= e <= j <= len,
            len == h@.len(),
            trim_end(h@, b as int, j as int) == trim_end(h@, b as int, e as int),
        decreases e - b,
    {
        e = e - 1;
    }
    if b < e {
        Located::Value(b, e)
    } else {
        Located::Absent
    }
}

fn header_slice<'a>(h: &'a Vec<u8>, name: &str, absent: HttpError) -> (r: Result<&'a [u8], HttpError>)
    ensures
        bytes_of(r) == header_result(h@, name@, absent),
{
    match locate(h.as_slice(), name.as_bytes()) {
        Located::Value(b, e) => {
            proof {
                lemma_lookup_bounds(h@, utf8(name@));
            }
            Ok(vstd::slice::slice_subrange(h.as_slice(), b, e))
        },
        Located::Absent => Err(absent),
        Located::Unterminated => Err(HttpError::InvalidHttpData),
    }
}

fn header_number(h: &Vec<u8>) -> (r: Result<usize, HttpError>)
    ensures
        r == content_length_result(h@),
{
    match header_slice(h, "Content-Length:", HttpError::HeaderNotExistContentLength) {
        Err(e) => Err(e),
        Ok(v) => match parse_decimal(v) {
            Some(n) => Ok(n),
            None => {
                proof {
                    lemma_lookup_bounds(h@, utf8("Content-Length:"@));
                }
                Err(HttpError::InvalidContentLength)
            },
        },
    }
}

fn push_header(headers: &mut Vec<u8>, name: &str, value: &[u8])
    ensures
        final(headers)@ == old(headers)@ + header_line(name@, value@),
{
    append(headers, name.as_bytes());
    headers.push(58);
    headers.push(SP);
    append(headers, value);
    headers.push(CR);
    headers.push(LF);
    assert(final(headers)@ =~= old(headers)@ + header_line(name@, value@));
}


// --------------------------------------------------------------- requests --

/// An HTTP request: the three parts of the request line, the header lines
/// as they were added, and the message body.
#[derive(Debug)]
pub struct HttpRequestParts {
    method: Vec<u8>,
    requri: Vec<u8>,
    httpver: Vec<u8>,
    headers: Vec<u8>,
    msgbody: Vec<u8>,
}

/// The bytes that a request holds.
pub struct RequestView {
    pub method: Seq<u8>,
    pub requri: Seq<u8>,
    pub httpver: Seq<u8>,
    pub headers: Seq<u8>,
    pub msgbody: Seq<u8>,
}

impl RequestView {
    /// The request with nothing in it.
    pub open spec fn empty() -> RequestView {
        RequestView {
            method: Seq::empty(),
            requri: Seq::empty(),
            httpver: Seq::empty(),
            headers: Seq::empty(),
            msgbody: Seq::empty(),
        }
    }

    /// The request with one more header line.
    pub open spec fn with_header(self, name: Seq<char>, value: Seq<u8>) -> RequestView {
        RequestView { headers: self.headers + header_line(name, value), ..self }
    }

    /// The request with `HTTP/1.1` added to the version.
    pub open spec fn versioned(self) -> RequestView {
        RequestView { httpver: self.httpver + utf8("HTTP/1.1"@), ..self }
    }

    /// The request with `b` added to the body, and with the header that
    /// gives the length of `b`.
    pub open spec fn with_body(self, b: Seq<u8>) -> RequestView {
        RequestView {
            msgbody: self.msgbody + b,
            ..self.with_header("Content-Length"@, dec_digits(b.len()))
        }
    }

    /// The request with `m` added to the method and `uri` to the request URI.
    pub open spec fn with_target(self, m: Seq<char>, uri: Seq<char>) -> RequestView {
        RequestView { method: self.method + utf8(m), requri: self.requri + utf8(uri), ..self }
    }

    /// The request on the wire: request line, header lines, an empty line, body.
    pub open spec fn wire(self) -> Seq<u8> {
        self.method + seq![SP] + self.requri + seq![SP] + self.httpver + crlf() + self.headers
            + crlf() + self.msgbody
    }
}

impl View for HttpRequestParts {
    type V = RequestView;

    closed spec fn view(&self) -> RequestView {
        RequestView {
            method: self.method@,
            requri: self.requri@,
            httpver: self.httpver@,
            headers: self.headers@,
            msgbody: self.msgbody@,
        }
    }
}

impl HttpRequestParts {
    /// A request with nothing in it.
    pub fn from_scratch() -> (r: Self)
        ensures
            r@ == RequestView::empty(),
    {
        HttpRequestParts {
            method: Vec::new(),
            requri: Vec::new(),
            httpver: Vec::new(),
            headers: Vec::new(),
            msgbody: Vec::new(),
        }
    }

    /// Adds `HTTP/1.1` to the version.
    pub fn http1p1(&mut self) -> (ret: &mut Self)
        ensures
            ret@ == old(self)@.versioned(),
            *final(self) == *final(ret),
    {
        self.set_http_version("HTTP/1.1")
    }

    /// Adds `GET` to the method and `uri` to the request URI.
    pub fn get(&mut self, uri: &str) -> (ret: &mut Self)
        ensures
            ret@ == old(self)@.with_target("GET"@, uri@),
            *final(self) == *final(ret),
    {
        append(&mut self.method, "GET".as_bytes());
        append(&mut self.requri, uri.as_bytes());
        self
    }

    /// Adds `POST` to the method and `uri` to the request URI.
    pub fn post(&mut self, uri: &str) -> (ret: &mut Self)
        ensures
            ret@ == old(self)@.with_target("POST"@, uri@),
            *final(self) == *final(ret),
    {
        append(&mut self.method, "POST".as_bytes());
        append(&mut self.requri, uri.as_bytes());
        self
    }

    /// Adds `DELETE` to the method and `uri` to the request URI.
    pub fn delete(&mut self, uri: &str) -> (ret: &mut Self)
        ensures
            ret@ == old(self)@.with_target("DELETE"@, uri@),
            *final(self) == *final(ret),
    {
        append(&mut self.method, "DELETE".as_bytes());
        append(&mut self.requri, uri.as_bytes());
        self
    }

    /// Adds the header `Host`.
    pub fn host(&mut self, n: &str) -> (ret: &mut Self)
        ensures
            ret@ == old(self)@.with_header("Host"@, utf8(n@)),
            *final(self) == *final(ret),
    {
        push_header(&mut self.headers, "Host", n.as_bytes());
        self
    }

    /// Adds the header `Content-Type`.
    pub fn content_type(&mut self, n: &str) -> (ret: &mut Self)
        ensures
            ret@ == old(self)@.with_header("Content-Type"@, utf8(n@)),
            *final(self) == *final(ret),
    {
        push_header(&mut self.headers, "Content-Type", n.as_bytes());
        self
    }

    /// Adds the header `Connection`.
    pub fn connection(&mut self, n: &str) -> (ret: &mut Self)
        ensures
            ret@ == old(self)@.with_header("Connection"@, utf8(n@)),
            *final(self) == *final(ret),
    {
        push_header(&mut self.headers, "Connection", n.as_bytes());
        self
    }

    /// Adds the header `Upgrade`.
    pub fn upgrade(&mut self, n: &str) -> (ret: &mut Self)
        ensures
            ret@ == old(self)@.with_header("Upgrade"@, utf8(n@)),
            *final(self) == *final(ret),
    {
        push_header(&mut self.headers, "Upgrade", n.as_bytes());
        self
    }

    /// Adds the header `Sec-WebSocket-Key`.
    pub fn ws_key(&mut self, n: &str) -> (ret: &mut Self)
        ensures
            ret@ == old(self)@.with_header("Sec-WebSocket-Key"@, utf8(n@)),
            *final(self) == *final(ret),
    {
        push_header(&mut self.headers, "Sec-WebSocket-Key", n.as_bytes());
        self
    }

    /// Adds the header `Sec-WebSocket-Version`.
    pub fn ws_ver(&mut self, n: &str) -> (ret: &mut Self)
        ensures
            ret@ == old(self)@.with_header("Sec-WebSocket-Version"@, utf8(n@)),
            *final(self) == *final(ret),
    {
        push_header(&mut self.headers, "Sec-WebSocket-Version", n.as_bytes());
        self
    }

    /// Adds the header `User-Agent`.
    pub fn ua(&mut self, n: &str) -> (ret: &mut Self)
        ensures
            ret@ == old(self)@.with_header("User-Agent"@, utf8(n@)),
            *final(self) == *final(ret),
    {
        push_header(&mut self.headers, "User-Agent", n.as_bytes());
        self
    }

    /// Attaches `b` to the body and adds the Content-Length header for it.
    pub fn msgbody_from_slice(&mut self, b: &[u8]) -> (ret: &mut Self)
        ensures
            ret@ == old(self)@.with_body(b@),
            *final(self) == *final(ret),
    {
        append(&mut self.msgbody, b);
        let mut digits: Vec<u8> = Vec::new();
        push_decimal(&mut digits, b.len());
        assert(digits@ =~= dec_digits(b@.len()));
        push_header(&mut self.headers, "Content-Length", digits.as_slice());
        self
    }

    /// Adds `m` to the method.
    pub fn set_method(&mut self, m: &str) -> (ret: &mut Self)
        ensures
            ret@ == (RequestView { method: old(self)@.method + utf8(m@), ..old(self)@ }),
            *final(self) == *final(ret),
    {
        append(&mut self.method, m.as_bytes());
        self
    }

    /// Adds `uri` to the request URI.
    pub fn set_request_uri(&mut self, uri: &str) -> (ret: &mut Self)
        ensures
            ret@ == (RequestView { requri: old(self)@.requri + utf8(uri@), ..old(self)@ }),
            *final(self) == *final(ret),
    {
        append(&mut self.requri, uri.as_bytes());
        self
    }

    /// Adds `v` to the version.
    pub fn set_http_version(&mut self, v: &str) -> (ret: &mut Self)
        ensures
            ret@ == (RequestView { httpver: old(self)@.httpver + utf8(v@), ..old(self)@ }),
            *final(self) == *final(ret),
    {
        append(&mut self.httpver, v.as_bytes());
        self
    }

    /// The request URI, which is missing where it is empty.
    pub fn get_req_uri(&self) -> (r: Result<&[u8], HttpError>)
        ensures
            bytes_of(r) == if self@.requri.len() > 0 {
                Ok::<Seq<u8>, HttpError>(self@.requri)
            } else {
                Err(HttpError::HeaderNotExistReqUri)
            },
    {
        if self.requri.len() > 0 {
            Ok(self.requri.as_slice())
        } else {
            Err(HttpError::HeaderNotExistReqUri)
        }
    }

    /// The value of the header `Content-Length`, as a number.
    pub fn get_content_length(&self) -> (r: Result<usize, HttpError>)
        ensures
            r == content_length_result(self@.headers),
    {
        header_number(&self.headers)
    }

    /// The value of the header `Connection`.
    pub fn get_connection(&self) -> (r: Result<&[u8], HttpError>)
        ensures
            bytes_of(r) == header_result(self@.headers, "Connection:"@, HttpError::HeaderNotExistConnection),
    {
        header_slice(&self.headers, "Connection:", HttpError::HeaderNotExistConnection)
    }

    /// The value of the header `Upgrade`.
    pub fn get_upgrade(&self) -> (r: Result<&[u8], HttpError>)
        ensures
            bytes_of(r) == header_result(self@.headers, "Upgrade:"@, HttpError::HeaderNotExistUpgrade),
    {
        header_slice(&self.headers, "Upgrade:", HttpError::HeaderNotExistUpgrade)
    }

    /// The value of the header `Host`.
    pub fn get_host(&self) -> (r: Result<&[u8], HttpError>)
        ensures
            bytes_of(r) == header_result(self@.headers, "Host:"@, HttpError::HeaderNotExistHost),
    {
        header_slice(&self.headers, "Host:", HttpError::HeaderNotExistHost)
    }

    /// The value of the header `Sec-WebSocket-Key`.
    pub fn get_ws_key(&self) -> (r: Result<&[u8], HttpError>)
        ensures
            bytes_of(r) == header_result(self@.headers, "Sec-WebSocket-Key:"@, HttpError::HeaderNotExistWsKey),
    {
        header_slice(&self.headers, "Sec-WebSocket-Key:", HttpError::HeaderNotExistWsKey)
    }

    /// The value of the header `Sec-WebSocket-Version`.
    pub fn get_ws_ver(&self) -> (r: Result<&[u8], HttpError>)
        ensures
            bytes_of(r) == header_result(self@.headers, "Sec-WebSocket-Version:"@, HttpError::HeaderNotExistWsVer),
    {
        header_slice(&self.headers, "Sec-WebSocket-Version:", HttpError::HeaderNotExistWsVer)
    }

    /// The request as it goes on the wire.
    pub fn to_bytes(&self) -> (r: Vec<u8>)
        ensures
            r@ == self@.wire(),
    {
        self.to_vec()
    }

    /// A copy of the body.
    pub fn get_msgbody(&self) -> (r: Vec<u8>)
        ensures
            r@ == self@.msgbody,
    {
        self.msgbody.clone()
    }

    /// The request as it goes on the wire.
    pub fn to_vec(&self) -> (r: Vec<u8>)
        ensures
            r@ == self@.wire(),
    {
        let mut req: Vec<u8> = Vec::new();
        append(&mut req, self.method.as_slice());
        req.push(SP);
        append(&mut req, self.requri.as_slice());
        req.push(SP);
        append(&mut req, self.httpver.as_slice());
        req.push(CR);
        req.push(LF);
        append(&mut req, self.headers.as_slice());
        req.push(CR);
        req.push(LF);
        append(&mut req, self.msgbody.as_slice());
        assert(req@ =~= self@.wire());
        req
    }
}


// ---------------------------------------------------------------- parsing --

/// How far a parser got with the bytes it was given.
pub enum Parsed<T> {
    /// The message is not complete: at least this many more bytes belong to it.
    Need(usize),
    /// The bytes are not a message.
    Bad(HttpError),
    /// The message.
    Done(T),
}

/// A position as a mathematical integer.
pub open spec fn pos(r: Option<usize>) -> Option<int> {
    match r {
        Some(i) => Some(i as int),
        None => None,
    }
}

/// The first position at or after `from` that holds `b`.
pub open spec fn find_byte(s: Seq<u8>, b: u8, from: int) -> Option<int>
    decreases s.len() - from,
{
    if from < 0 || from >= s.len() {
        None
    } else if s[from] == b {
        Some(from)
    } else {
        find_byte(s, b, from + 1)
    }
}

/// Whether an empty line ends a line at `i`: CRLF CRLF starts there.
pub open spec fn blank_at(s: Seq<u8>, i: int) -> bool {
    crlf_at(s, i) && crlf_at(s, i + 2)
}

/// The end of the header block that starts at `from`: the position just
/// behind the first CRLF CRLF at or after `from`.
pub open spec fn block_end(s: Seq<u8>, from: int) -> Option<int>
    decreases s.len() - from,
{
    if from < 0 || from + 4 > s.len() {
        None
    } else if blank_at(s, from) {
        Some(from + 4)
    } else {
        block_end(s, from + 1)
    }
}

/// The protocol versions that a response may name, each with the space
/// that follows it.
pub open spec fn known_version(v: Seq<u8>) -> bool {
    v == utf8("HTTP/0.9 "@) || v == utf8("HTTP/1.0 "@) || v == utf8("HTTP/1.1 "@) || v == utf8(
        "HTTP/2.0 "@,
    ) || v == utf8("HTTP/3.0 "@)
}

/// Whether a status (code, space, reason) is the one of success.
pub open spec fn status_is_200(status: Seq<u8>) -> bool {
    status.len() >= 4 && status.take(4) == utf8("200 "@)
}

/// Where a byte is found, it stands.
pub proof fn lemma_find_byte_bounds(s: Seq<u8>, b: u8, from: int)
    ensures
        find_byte(s, b, from) matches Some(i) ==> from <= i < s.len() && s[i] == b,
    decreases s.len() - from,
{
    if from < 0 || from >= s.len() {
    } else if s[from] == b {
    } else {
        lemma_find_byte_bounds(s, b, from + 1);
    }
}

/// A header block ends inside the bytes, at least four bytes behind its
/// start.
pub proof fn lemma_block_end_bounds(s: Seq<u8>, from: int)
    ensures
        block_end(s, from) matches Some(e) ==> from + 4 <= e <= s.len(),
    decreases s.len() - from,
{
    if from < 0 || from + 4 > s.len() {
    } else if blank_at(s, from) {
    } else {
        lemma_block_end_bounds(s, from + 1);
    }
}

fn scan_byte(s: &[u8], b: u8, from: usize, to: usize) -> (r: Option<usize>)
    requires
        from <= to <= s@.len(),
    ensures
        pos(r) == find_byte(s@.take(to as int), b, from as int),
{
    let ghost t = s@.take(to as int);
    let mut i: usize = from;
    while i < to
        invariant
            from <= i <= to <= s@.len(),
            t == s@.take(to as int),
            find_byte(t, b, from as int) == find_byte(t, b, i as int),
        decreases to - i,
    {
        if s[i] == b {
            return Some(i);
        }
        i = i + 1;
    }
    None
}

fn scan_block_end(s: &[u8], from: usize) -> (r: Option<usize>)
    requires
        from <= s@.len(),
    ensures
        pos(r) == block_end(s@, from as int),
{
    let len = s.len();
    let mut i: usize = from;
    while 4 <= len - i
        invariant
            from <= i <= len,
            len == s@.len(),
            block_end(s@, from as int) == block_end(s@, i as int),
        decreases len - i,
    {
        if s[i] == CR && s[i + 1] == LF && s[i + 2] == CR && s[i + 3] == LF {
            return Some(i + 4);
        }
        i = i + 1;
    }
    None
}

fn is_known_version(v: &[u8]) -> (r: bool)
    ensures
        r == known_version(v@),
{
    same_bytes(v, "HTTP/0.9 ".as_bytes()) || same_bytes(v, "HTTP/1.0 ".as_bytes()) || same_bytes(
        v,
        "HTTP/1.1 ".as_bytes(),
    ) || same_bytes(v, "HTTP/2.0 ".as_bytes()) || same_bytes(v, "HTTP/3.0 ".as_bytes())
}

fn is_200(status: &[u8]) -> (r: bool)
    ensures
        r == status_is_200(status@),
{
    status.len() >= 4 && same_bytes(vstd::slice::slice_subrange(status, 0, 4), "200 ".as_bytes())
}

/// What the parser of requests makes of the bytes `s`.
///
/// The request line ends at the first CR, which LF must follow; its first
/// two spaces part method, request URI and version. The header block ends
/// behind the first CRLF CRLF. Where it names a Content-Length, that many
/// bytes of body follow.
pub open spec fn request_parse(s: Seq<u8>) -> Parsed<RequestView> {
    match find_byte(s, CR, 0) {
        None => Parsed::Need(1),
        Some(c) => if c + 1 >= s.len() {
            Parsed::Need(1)
        } else if s[c + 1] != LF {
            Parsed::Bad(HttpError::InvalidHttpData)
        } else {
            match find_byte(s.take(c), SP, 0) {
                None => Parsed::Bad(HttpError::InvalidHttpData),
                Some(p) => match find_byte(s.take(c), SP, p + 1) {
                    None => Parsed::Bad(HttpError::InvalidHttpData),
                    Some(q) => match block_end(s, c + 2) {
                        None => Parsed::Need(1),
                        Some(e) => {
                            let head = RequestView {
                                method: s.subrange(0, p),
                                requri: s.subrange(p + 1, q),
                                httpver: s.subrange(q + 1, c),
                                headers: s.subrange(c + 2, e),
                                msgbody: Seq::empty(),
                            };
                            match content_length_result(head.headers) {
                                Err(HttpError::HeaderNotExistContentLength) => Parsed::Done(head),
                                Err(x) => Parsed::Bad(x),
                                Ok(n) => if s.len() - e < n {
                                    Parsed::Need((n - (s.len() - e)) as usize)
                                } else {
                                    Parsed::Done(
                                        RequestView { msgbody: s.subrange(e, e + n), ..head },
                                    )
                                },
                            }
                        },
                    },
                },
            }
        },
    }
}

/// A parser's outcome with the message as the bytes it holds.
pub open spec fn request_outcome(r: Parsed<HttpRequestParts>) -> Parsed<RequestView> {
    match r {
        Parsed::Need(k) => Parsed::Need(k),
        Parsed::Bad(e) => Parsed::Bad(e),
        Parsed::Done(m) => Parsed::Done(m@),
    }
}

impl HttpRequestParts {
    /// Reads a request from the bytes received so far.
    pub fn from_bytes(input: &[u8]) -> (r: Parsed<HttpRequestParts>)
        ensures
            request_outcome(r) == request_parse(input@),
    {
        let len = input.len();
        proof {
            assert(input@.take(len as int) =~= input@);
            lemma_find_byte_bounds(input@, CR, 0);
        }
        let c = match scan_byte(input, CR, 0, len) {
            None => {
                return Parsed::Need(1);
            },
            Some(c) => c,
        };
        if len - c < 2 {
            return Parsed::Need(1);
        }
        if input[c + 1] != LF {
            return Parsed::Bad(HttpError::InvalidHttpData);
        }
        proof {
            lemma_find_byte_bounds(input@.take(c as int), SP, 0);
        }
        let p = match scan_byte(input, SP, 0, c) {
            None => {
                return Parsed::Bad(HttpError::InvalidHttpData);
            },
            Some(p) => p,
        };
        proof {
            lemma_find_byte_bounds(input@.take(c as int), SP, p + 1);
        }
        let q = match scan_byte(input, SP, p + 1, c) {
            None => {
                return Parsed::Bad(HttpError::InvalidHttpData);
            },
            Some(q) => q,
        };
        proof {
            lemma_block_end_bounds(input@, c + 2);
        }
        let e = match scan_block_end(input, c + 2) {
            None => {
                return Parsed::Need(1);
            },
            Some(e) => e,
        };
        let mut req = HttpRequestParts {
            method: copy_range(input, 0, p),
            requri: copy_range(input, p + 1, q),
            httpver: copy_range(input, q + 1, c),
            headers: copy_range(input, c + 2, e),
            msgbody: Vec::new(),
        };
        match header_number(&req.headers) {
            Err(HttpError::HeaderNotExistContentLength) => Parsed::Done(req),
            Err(x) => Parsed::Bad(x),
            Ok(n) => {
                if len - e < n {
                    Parsed::Need(n - (len - e))
                } else {
                    req.msgbody = copy_range(input, e, e + n);
                    Parsed::Done(req)
                }
            },
        }
    }
}


proof fn lemma_find_byte_first(s: Seq<u8>, b: u8, from: int, i: int)
    requires
        0 <= from <= i < s.len(),
        s[i] == b,
        forall|k: int| from <= k < i ==> s[k] != b,
    ensures
        find_byte(s, b, from) == Some(i),
    decreases i - from,
{
    if from < i {
        lemma_find_byte_first(s, b, from + 1, i);
    }
}

proof fn lemma_block_end_first(s: Seq<u8>, from: int, i: int)
    requires
        0 <= from <= i,
        i + 4 <= s.len(),
        blank_at(s, i),
        forall|k: int| from <= k < i ==> !blank_at(s, k),
    ensures
        block_end(s, from) == Some(i + 4),
    decreases i - from,
{
    if from < i {
        lemma_block_end_first(s, from + 1, i);
    }
}

/// Whether `h` is a run of header lines: it ends with CRLF and holds no
/// empty line.
pub open spec fn is_header_lines(h: Seq<u8>) -> bool {
    h.len() >= 2 && crlf_at(h, h.len() - 2) && forall|i: int| !blank_at(h, i)
}

/// Header lines stay header lines: a line for a name and a value that
/// hold neither CR nor LF, added to nothing or to a run of header lines,
/// gives a run of header lines.
pub proof fn lemma_header_lines_grow(h: Seq<u8>, name: Seq<char>, value: Seq<u8>)
    requires
        h.len() == 0 || is_header_lines(h),
        forall|k: int| 0 <= k < utf8(name).len() ==> utf8(name)[k] != CR && utf8(name)[k] != LF,
        forall|k: int| 0 <= k < value.len() ==> value[k] != CR && value[k] != LF,
    ensures
        is_header_lines(h + header_line(name, value)),
{
    let line = header_line(name, value);
    let g = h + line;
    let n = h.len() as int;
    let l = line.len() as int;
    assert(l == utf8(name).len() + 2 + value.len() + 2);
    assert forall|k: int| 0 <= k < l - 2 implies line[k] != CR && line[k] != LF by {
        if k < utf8(name).len() {
            assert(line[k] == utf8(name)[k]);
        } else if k < utf8(name).len() + 2 {
        } else {
            assert(line[k] == value[k - utf8(name).len() - 2]);
        }
    }
    assert(line[l - 2] == CR && line[l - 1] == LF);
    assert(crlf_at(g, g.len() - 2)) by {
        assert(g[n + l - 2] == line[l - 2]);
        assert(g[n + l - 1] == line[l - 1]);
    }
    assert forall|i: int| !blank_at(g, i) by {
        if blank_at(g, i) {
            if i + 4 <= n {
                assert(g[i] == h[i] && g[i + 1] == h[i + 1] && g[i + 2] == h[i + 2] && g[i + 3]
                    == h[i + 3]);
                assert(blank_at(h, i));
            } else if i < n {
                assert(g[n] == line[0]);
            } else {
                assert(g[i] == line[i - n]);
                assert(g[i + 2] == line[i - n + 2]);
            }
        }
    }
}

/// Whether `name` ends with the colon, as the names that the getters
/// look for do.
pub open spec fn ends_with_colon(name: Seq<u8>) -> bool {
    name.len() > 0 && name.last() == 58
}

/// Whether `h` ends with CRLF.
pub open spec fn ends_with_crlf(h: Seq<u8>) -> bool {
    h.len() >= 2 && crlf_at(h, h.len() - 2)
}

proof fn lemma_name_at_behind(h: Seq<u8>, name: Seq<u8>, i: int)
    requires
        ends_with_crlf(h),
        ends_with_colon(name),
    ensures
        name_at(h + crlf(), name, i) == name_at(h, name, i),
        name_at(h, name, i) ==> i + name.len() <= h.len() - 2,
{
    let g = h + crlf();
    let n = name.len() as int;
    let hl = h.len() as int;
    assert(lowered(name)[n - 1] == lower(name[n - 1]));
    if 0 <= i && i + n <= g.len() {
        if i + n > hl - 2 {
            assert(g[hl - 2] == CR && g[hl - 1] == LF && g[hl] == CR && g[hl + 1] == LF);
            assert(g.subrange(i, i + n)[n - 1] == g[i + n - 1]);
            if i + n <= hl {
                assert(h.subrange(i, i + n)[n - 1] == h[i + n - 1]);
            }
        } else {
            assert(g.subrange(i, i + n) =~= h.subrange(i, i + n));
        }
    }
}

proof fn lemma_find_name_behind(h: Seq<u8>, name: Seq<u8>, from: int)
    requires
        ends_with_crlf(h),
        ends_with_colon(name),
    ensures
        find_name(h + crlf(), name, from) == find_name(h, name, from),
    decreases h.len() + 3 - from,
{
    let g = h + crlf();
    if from < 0 || from + name.len() > g.len() {
    } else {
        lemma_name_at_behind(h, name, from);
        if !name_at(g, name, from) {
            lemma_find_name_behind(h, name, from + 1);
            if from + name.len() > h.len() {
                assert(find_name(h, name, from + 1).is_none());
            }
        }
    }
}

proof fn lemma_skip_spaces_behind(h: Seq<u8>, from: int)
    requires
        ends_with_crlf(h),
        0 <= from <= h.len() - 2,
    ensures
        skip_spaces(h + crlf(), from) == skip_spaces(h, from),
        from <= skip_spaces(h, from) <= h.len() - 2,
    decreases h.len() - from,
{
    let g = h + crlf();
    assert(g[from] == h[from]);
    if h[from] == SP {
        lemma_skip_spaces_behind(h, from + 1);
    }
}

proof fn lemma_find_crlf_behind(h: Seq<u8>, from: int)
    requires
        ends_with_crlf(h),
        0 <= from <= h.len() - 2,
    ensures
        find_crlf(h + crlf(), from) == find_crlf(h, from),
        find_crlf(h, from) matches Some(j) && from <= j <= h.len() - 2,
    decreases h.len() - from,
{
    let g = h + crlf();
    assert(g[from] == h[from] && g[from + 1] == h[from + 1]);
    if !crlf_at(h, from) {
        lemma_find_crlf_behind(h, from + 1);
    }
}

proof fn lemma_trim_end_behind(h: Seq<u8>, e: Seq<u8>, lo: int, hi: int)
    requires
        0 <= lo,
        hi <= h.len(),
    ensures
        trim_end(h + e, lo, hi) == trim_end(h, lo, hi),
    decreases hi - lo,
{
    if lo < hi {
        assert((h + e)[hi - 1] == h[hi - 1]);
        if h[hi - 1] == SP {
            lemma_trim_end_behind(h, e, lo, hi - 1);
        }
    }
}

/// The empty line behind a header block changes no search: a name that
/// ends with the colon is found in a block that ends with CRLF, with the
/// empty line behind it, where it is found without, and with the same
/// value.
pub proof fn lemma_blank_line_changes_no_lookup(h: Seq<u8>, name: Seq<u8>)
    requires
        ends_with_crlf(h),
        ends_with_colon(name),
    ensures
        lookup(h + crlf(), name) == lookup(h, name),
        lookup(h, name) matches Lookup::Value(b, e) ==> (h + crlf()).subrange(b, e) == h.subrange(
            b,
            e,
        ),
{
    let g = h + crlf();
    lemma_find_name_behind(h, name, 0);
    lemma_find_name_bounds(h, name, 0);
    if let Some(i) = find_name(h, name, 0) {
        lemma_name_at_behind(h, name, i);
        let at = i + name.len();
        lemma_skip_spaces_behind(h, at);
        let b = skip_spaces(h, at);
        lemma_find_crlf_behind(h, b);
        let j = find_crlf(h, b).unwrap();
        lemma_trim_end_behind(h, crlf(), b, j);
        lemma_trim_end_bounds(h, b, j);
        let e = trim_end(h, b, j);
        if b < e {
            assert(g.subrange(b, e) =~= h.subrange(b, e));
        }
    }
}

/// The empty line behind a header block changes no getter's result: what
/// a getter finds under a name in a block that ends with CRLF, it finds in
/// the block with the empty line behind it.
pub proof fn lemma_blank_line_changes_no_header(h: Seq<u8>, name: Seq<char>, absent: HttpError)
    requires
        ends_with_crlf(h),
        ends_with_colon(utf8(name)),
    ensures
        header_result(h + crlf(), name, absent) == header_result(h, name, absent),
{
    lemma_blank_line_changes_no_lookup(h, utf8(name));
}

/// The names that the getters look for end with the colon.
pub proof fn lemma_getter_names()
    ensures
        ends_with_colon(utf8("Content-Length:"@)),
        ends_with_colon(utf8("Connection:"@)),
        ends_with_colon(utf8("Upgrade:"@)),
        ends_with_colon(utf8("Host:"@)),
        ends_with_colon(utf8("Sec-WebSocket-Key:"@)),
        ends_with_colon(utf8("Sec-WebSocket-Version:"@)),
        ends_with_colon(utf8("Sec-WebSocket-Accept:"@)),
{
    reveal_strlit("Content-Length:");
    reveal_strlit("Connection:");
    reveal_strlit("Upgrade:");
    reveal_strlit("Host:");
    reveal_strlit("Sec-WebSocket-Key:");
    reveal_strlit("Sec-WebSocket-Version:");
    reveal_strlit("Sec-WebSocket-Accept:");
    lemma_ends_with_colon("Content-Length:"@);
    lemma_ends_with_colon("Connection:"@);
    lemma_ends_with_colon("Upgrade:"@);
    lemma_ends_with_colon("Host:"@);
    lemma_ends_with_colon("Sec-WebSocket-Key:"@);
    lemma_ends_with_colon("Sec-WebSocket-Version:"@);
    lemma_ends_with_colon("Sec-WebSocket-Accept:"@);
}

proof fn lemma_ends_with_colon(name: Seq<char>)
    requires
        vstd::utf8::is_ascii_chars(name),
        name.len() > 0,
        name.last() == ':',
    ensures
        ends_with_colon(utf8(name)),
{
    lemma_ascii_bytes(name);
    assert(utf8(name)[name.len() - 1] == name[name.len() - 1] as u8);
}

/// What the header getters return for a header block.
pub struct Found {
    pub content_length: Result<usize, HttpError>,
    pub connection: Result<Seq<u8>, HttpError>,
    pub upgrade: Result<Seq<u8>, HttpError>,
    pub host: Result<Seq<u8>, HttpError>,
    pub ws_key: Result<Seq<u8>, HttpError>,
    pub ws_ver: Result<Seq<u8>, HttpError>,
    pub ws_accept: Result<Seq<u8>, HttpError>,
}

/// What the header getters of a request or a response return, each
/// for the header block `h`.
pub open spec fn found(h: Seq<u8>) -> Found {
    Found {
        content_length: content_length_result(h),
        connection: header_result(h, "Connection:"@, HttpError::HeaderNotExistConnection),
        upgrade: header_result(h, "Upgrade:"@, HttpError::HeaderNotExistUpgrade),
        host: header_result(h, "Host:"@, HttpError::HeaderNotExistHost),
        ws_key: header_result(h, "Sec-WebSocket-Key:"@, HttpError::HeaderNotExistWsKey),
        ws_ver: header_result(h, "Sec-WebSocket-Version:"@, HttpError::HeaderNotExistWsVer),
        ws_accept: header_result(h, "Sec-WebSocket-Accept:"@, HttpError::HeaderNotExistWsAccept),
    }
}

/// The empty line behind a header block changes nothing that a getter
/// returns.
pub proof fn lemma_blank_line_changes_nothing_found(h: Seq<u8>)
    requires
        ends_with_crlf(h),
    ensures
        found(h + crlf()) == found(h),
{
    lemma_getter_names();
    lemma_blank_line_changes_no_lookup(h, utf8("Content-Length:"@));
    lemma_blank_line_changes_no_lookup(h, utf8("Connection:"@));
    lemma_blank_line_changes_no_lookup(h, utf8("Upgrade:"@));
    lemma_blank_line_changes_no_lookup(h, utf8("Host:"@));
    lemma_blank_line_changes_no_lookup(h, utf8("Sec-WebSocket-Key:"@));
    lemma_blank_line_changes_no_lookup(h, utf8("Sec-WebSocket-Version:"@));
    lemma_blank_line_changes_no_lookup(h, utf8("Sec-WebSocket-Accept:"@));
}

/// Round trip of a request: what `to_vec` writes, `from_bytes` reads back
/// with the same method, request URI, version and body, and with the same
/// header lines, the empty line behind them included; and every header
/// getter returns for the request read back what it returns for the
/// request that was written.
///
/// This holds of a request whose method and request URI hold neither space
/// nor CR, whose version holds no CR, whose headers are a run of header
/// lines, and whose Content-Length, if it has one, is the length of its
/// body; without one, the body is empty.
#[verifier::rlimit(60)]
pub proof fn lemma_request_round_trip(v: RequestView, n: usize)
    requires
        forall|k: int| 0 <= k < v.method.len() ==> v.method[k] != CR && v.method[k] != SP,
        forall|k: int| 0 <= k < v.requri.len() ==> v.requri[k] != CR && v.requri[k] != SP,
        forall|k: int| 0 <= k < v.httpver.len() ==> v.httpver[k] != CR,
        is_header_lines(v.headers),
        n == v.msgbody.len(),
        content_length_result(v.headers) == Ok::<usize, HttpError>(n) || (n == 0
            && content_length_result(v.headers) == Err::<usize, HttpError>(
            HttpError::HeaderNotExistContentLength,
        )),
    ensures
        request_parse(v.wire()) == Parsed::Done(
            RequestView { headers: v.headers + crlf(), ..v },
        ),
        found(v.headers + crlf()) == found(v.headers),
{
    lemma_blank_line_changes_nothing_found(v.headers);
    let s = v.wire();
    let p = v.method.len() as int;
    let q = p + 1 + v.requri.len();
    let c = q + 1 + v.httpver.len();
    let hl = v.headers.len() as int;
    let e = c + 2 + hl + 2;
    assert(s.len() == e + n);
    assert forall|k: int| 0 <= k < c implies s[k] != CR by {
        if k < p {
            assert(s[k] == v.method[k]);
        } else if k == p {
        } else if k < q {
            assert(s[k] == v.requri[k - p - 1]);
        } else if k == q {
        } else {
            assert(s[k] == v.httpver[k - q - 1]);
        }
    }
    assert(s[c] == CR && s[c + 1] == LF);
    lemma_find_byte_first(s, CR, 0, c);
    let line = s.take(c);
    assert forall|k: int| 0 <= k < p implies line[k] != SP by {
        assert(line[k] == v.method[k]);
    }
    assert(line[p] == SP);
    lemma_find_byte_first(line, SP, 0, p);
    assert forall|k: int| p + 1 <= k < q implies line[k] != SP by {
        assert(line[k] == v.requri[k - p - 1]);
    }
    assert(line[q] == SP);
    lemma_find_byte_first(line, SP, p + 1, q);
    let i = c + 2 + hl - 2;
    assert forall|k: int| c + 2 <= k < e implies s[k] == (v.headers + crlf())[k - c - 2] by {}
    assert(crlf_at(v.headers, hl - 2));
    assert(blank_at(s, i)) by {
        assert(s[i] == v.headers[hl - 2]);
        assert(s[i + 1] == v.headers[hl - 1]);
    }
    assert forall|k: int| c + 2 <= k < i implies !blank_at(s, k) by {
        let d = k - c - 2;
        if blank_at(s, k) {
            if d + 4 <= hl {
                assert(s[k] == v.headers[d]);
                assert(s[k + 1] == v.headers[d + 1]);
                assert(s[k + 2] == v.headers[d + 2]);
                assert(s[k + 3] == v.headers[d + 3]);
                assert(blank_at(v.headers, d));
            } else {
                assert(s[k + 1] == v.headers[hl - 2]);
            }
        }
    }
    lemma_block_end_first(s, c + 2, i);
    assert(s.subrange(0, p) =~= v.method);
    assert(s.subrange(p + 1, q) =~= v.requri);
    assert(s.subrange(q + 1, c) =~= v.httpver);
    assert(s.subrange(c + 2, e) =~= v.headers + crlf());
    assert(s.subrange(e, e + n) =~= v.msgbody);
    assert(v.msgbody =~= Seq::<u8>::empty() <== n == 0);
}

/// Whether the header `Content-Length` stands nowhere in `h`, neither as
/// written here nor all in small letters.
pub open spec fn names_no_length(h: Seq<u8>) -> bool {
    forall|k: int| !name_at(h, utf8("Content-Length:"@), k)
}

proof fn lemma_find_name_none(h: Seq<u8>, name: Seq<u8>, from: int)
    requires
        forall|k: int| from <= k ==> !name_at(h, name, k),
    ensures
        find_name(h, name, from).is_none(),
    decreases h.len() - from + 1,
{
    if from < 0 || from + name.len() > h.len() {
    } else {
        lemma_find_name_none(h, name, from + 1);
    }
}

/// Round trip of a request without body, as the builders make it: where
/// its header lines name no Content-Length, it is read back as it was
/// written, and every header getter returns for it what it returned
/// before.
pub proof fn lemma_bodiless_round_trip(v: RequestView)
    requires
        forall|k: int| 0 <= k < v.method.len() ==> v.method[k] != CR && v.method[k] != SP,
        forall|k: int| 0 <= k < v.requri.len() ==> v.requri[k] != CR && v.requri[k] != SP,
        forall|k: int| 0 <= k < v.httpver.len() ==> v.httpver[k] != CR,
        is_header_lines(v.headers),
        names_no_length(v.headers),
        v.msgbody.len() == 0,
    ensures
        request_parse(v.wire()) == Parsed::Done(
            RequestView { headers: v.headers + crlf(), ..v },
        ),
        found(v.headers + crlf()) == found(v.headers),
{
    lemma_find_name_none(v.headers, utf8("Content-Length:"@), 0);
    lemma_request_round_trip(v, 0);
}

proof fn lemma_length_name_is_plain()
    ensures
        forall|j: int|
            0 <= j < utf8("Content-Length:"@).len() ==> #[trigger] utf8("Content-Length:"@)[j]
                != LF && lower(utf8("Content-Length:"@)[j]) != LF,
        forall|j: int|
            0 <= j < utf8("Content-Length"@).len() ==> #[trigger] utf8("Content-Length"@)[j] != CR
                && utf8("Content-Length"@)[j] != LF,
{
    reveal_strlit("Content-Length");
    reveal_strlit("Content-Length:");
    assert(vstd::utf8::is_ascii_chars("Content-Length"@));
    assert(vstd::utf8::is_ascii_chars("Content-Length:"@));
    lemma_ascii_bytes("Content-Length"@);
    lemma_ascii_bytes("Content-Length:"@);
    assert forall|j: int| 0 <= j < utf8("Content-Length:"@).len() implies #[trigger] utf8(
        "Content-Length:"@,
    )[j] != LF && lower(utf8("Content-Length:"@)[j]) != LF by {
        assert(utf8("Content-Length:"@)[j] == "Content-Length:"@[j] as u8);
    }
    assert forall|j: int| 0 <= j < utf8("Content-Length"@).len() implies #[trigger] utf8(
        "Content-Length"@,
    )[j] != CR && utf8("Content-Length"@)[j] != LF by {
        assert(utf8("Content-Length"@)[j] == "Content-Length"@[j] as u8);
    }
}

proof fn lemma_no_length_before(pre: Seq<u8>, line: Seq<u8>)
    requires
        pre.len() == 0 || ends_with_crlf(pre),
        names_no_length(pre),
    ensures
        forall|k: int|
            0 <= k < pre.len() ==> !name_at(pre + line, utf8("Content-Length:"@), k),
{
    let name = utf8("Content-Length:"@);
    let g = pre + line;
    let m = name.len() as int;
    lemma_length_name_is_plain();
    assert forall|k: int| 0 <= k < pre.len() implies !name_at(g, name, k) by {
        if name_at(g, name, k) {
            if k + m <= pre.len() {
                assert(g.subrange(k, k + m) =~= pre.subrange(k, k + m));
                assert(name_at(pre, name, k));
            } else {
                let j = pre.len() - 1 - k;
                assert(g.subrange(k, k + m)[j] == g[k + j]);
                assert(g[k + j] == LF);
                assert(lowered(name)[j] == lower(name[j]));
                assert(name[j] != LF && lower(name[j]) != LF);
            }
        }
    }
}

/// Round trip of a request with a body, as the builders make it: where
/// the header lines before the body was attached name no Content-Length,
/// the request with the body is read back as it was written, body and
/// all, and every header getter returns for it what it returned before.
pub proof fn lemma_with_body_round_trip(v: RequestView, b: Seq<u8>)
    requires
        forall|k: int| 0 <= k < v.method.len() ==> v.method[k] != CR && v.method[k] != SP,
        forall|k: int| 0 <= k < v.requri.len() ==> v.requri[k] != CR && v.requri[k] != SP,
        forall|k: int| 0 <= k < v.httpver.len() ==> v.httpver[k] != CR,
        v.headers.len() == 0 || is_header_lines(v.headers),
        names_no_length(v.headers),
        v.msgbody.len() == 0,
        b.len() <= usize::MAX,
    ensures
        request_parse(v.with_body(b).wire()) == Parsed::Done(
            RequestView { headers: v.with_body(b).headers + crlf(), ..v.with_body(b) },
        ),
        found(v.with_body(b).headers + crlf()) == found(v.with_body(b).headers),
{
    let n = b.len() as usize;
    let digits = dec_digits(n as nat);
    let pre = v.headers;
    let line = header_line("Content-Length"@, digits);
    let w = v.with_body(b);
    lemma_length_name_is_plain();
    lemma_dec_digits_are_digits(n as nat);
    assert forall|k: int| 0 <= k < digits.len() implies digits[k] != CR && digits[k] != LF by {
        assert(crate::octets::is_digit(digits[k]));
    }
    lemma_header_lines_grow(pre, "Content-Length"@, digits);
    lemma_no_length_before(pre, line);
    assert(pre + line + Seq::<u8>::empty() =~= pre + line);
    lemma_body_length_is_read(pre, n, Seq::empty());
    assert(w.headers == pre + line);
    assert(w.msgbody =~= b);
    lemma_request_round_trip(w, n);
}

// -------------------------------------------------------------- responses --

/// An HTTP response: version, status (code, space, reason), the header
/// block, and the body, held here or named by the path it was written to.
#[derive(Debug)]
pub struct HttpResponseParts {
    httpver: Vec<u8>,
    status: Vec<u8>,
    headers: Vec<u8>,
    msgbody: Vec<u8>,
    msgbody_persist: Option<String>,
}

/// What a response holds.
pub struct ResponseView {
    pub httpver: Seq<u8>,
    pub status: Seq<u8>,
    pub headers: Seq<u8>,
    pub msgbody: Seq<u8>,
    pub msgbody_persist: Option<Seq<char>>,
}

impl ResponseView {
    /// The response with nothing in it.
    pub open spec fn empty() -> ResponseView {
        ResponseView {
            httpver: Seq::empty(),
            status: Seq::empty(),
            headers: Seq::empty(),
            msgbody: Seq::empty(),
            msgbody_persist: None,
        }
    }

    /// The response with one more header line.
    pub open spec fn with_header(self, name: Seq<char>, value: Seq<u8>) -> ResponseView {
        ResponseView { headers: self.headers + header_line(name, value), ..self }
    }

    /// The response on the wire: status line, header block, an empty line, body.
    pub open spec fn wire(self) -> Seq<u8> {
        self.httpver + seq![SP] + self.status + crlf() + self.headers + crlf() + self.msgbody
    }
}

impl View for HttpResponseParts {
    type V = ResponseView;

    closed spec fn view(&self) -> ResponseView {
        ResponseView {
            httpver: self.httpver@,
            status: self.status@,
            headers: self.headers@,
            msgbody: self.msgbody@,
            msgbody_persist: match self.msgbody_persist {
                Some(p) => Some(p@),
                None => None,
            },
        }
    }
}

impl HttpResponseParts {
    /// The status: code, space, reason.
    pub fn get_status(&self) -> (r: Result<&[u8], HttpError>)
        ensures
            bytes_of(r) == Ok::<Seq<u8>, HttpError>(self@.status),
    {
        Ok(self.status.as_slice())
    }

    /// The value of the header `Content-Length`, as a number.
    pub fn get_content_length(&self) -> (r: Result<usize, HttpError>)
        ensures
            r == content_length_result(self@.headers),
    {
        header_number(&self.headers)
    }

    /// The value of the header `Connection`.
    pub fn get_connection(&self) -> (r: Result<&[u8], HttpError>)
        ensures
            bytes_of(r) == header_result(self@.headers, "Connection:"@, HttpError::HeaderNotExistConnection),
    {
        header_slice(&self.headers, "Connection:", HttpError::HeaderNotExistConnection)
    }

    /// The value of the header `Upgrade`.
    pub fn get_upgrade(&self) -> (r: Result<&[u8], HttpError>)
        ensures
            bytes_of(r) == header_result(self@.headers, "Upgrade:"@, HttpError::HeaderNotExistUpgrade),
    {
        header_slice(&self.headers, "Upgrade:", HttpError::HeaderNotExistUpgrade)
    }

    /// The value of the header `Sec-WebSocket-Accept`.
    pub fn get_ws_accept(&self) -> (r: Result<&[u8], HttpError>)
        ensures
            bytes_of(r) == header_result(self@.headers, "Sec-WebSocket-Accept:"@, HttpError::HeaderNotExistWsAccept),
    {
        header_slice(&self.headers, "Sec-WebSocket-Accept:", HttpError::HeaderNotExistWsAccept)
    }

    /// Adds `HTTP/1.1` to the version.
    pub fn http1p1(&mut self) -> (ret: &mut Self)
        ensures
            ret@ == (ResponseView { httpver: old(self)@.httpver + utf8("HTTP/1.1"@), ..old(self)@ }),
            *final(self) == *final(ret),
    {
        append(&mut self.httpver, "HTTP/1.1".as_bytes());
        self
    }

    /// Adds `status_reason` to the status.
    pub fn status(&mut self, status_reason: &[u8]) -> (ret: &mut Self)
        ensures
            ret@ == (ResponseView { status: old(self)@.status + status_reason@, ..old(self)@ }),
            *final(self) == *final(ret),
    {
        append(&mut self.status, status_reason);
        self
    }

    /// Adds the header `Connection`.
    pub fn connection(&mut self, n: &str) -> (ret: &mut Self)
        ensures
            ret@ == old(self)@.with_header("Connection"@, utf8(n@)),
            *final(self) == *final(ret),
    {
        push_header(&mut self.headers, "Connection", n.as_bytes());
        self
    }

    /// Adds the header `Upgrade`.
    pub fn upgrade(&mut self, n: &str) -> (ret: &mut Self)
        ensures
            ret@ == old(self)@.with_header("Upgrade"@, utf8(n@)),
            *final(self) == *final(ret),
    {
        push_header(&mut self.headers, "Upgrade", n.as_bytes());
        self
    }

    /// Adds the header `Sec-WebSocket-Accept`.
    pub fn ws_accept(&mut self, n: &str) -> (ret: &mut Self)
        ensures
            ret@ == old(self)@.with_header("Sec-WebSocket-Accept"@, utf8(n@)),
            *final(self) == *final(ret),
    {
        push_header(&mut self.headers, "Sec-WebSocket-Accept", n.as_bytes());
        self
    }

    /// The response as it goes on the wire.
    pub fn to_vec(&self) -> (r: Vec<u8>)
        ensures
            r@ == self@.wire(),
    {
        let mut resp: Vec<u8> = Vec::new();
        append(&mut resp, self.httpver.as_slice());
        resp.push(SP);
        append(&mut resp, self.status.as_slice());
        resp.push(CR);
        resp.push(LF);
        append(&mut resp, self.headers.as_slice());
        resp.push(CR);
        resp.push(LF);
        append(&mut resp, self.msgbody.as_slice());
        assert(resp@ =~= self@.wire());
        resp
    }

    /// The header block.
    pub fn headers(&self) -> (r: &Vec<u8>)
        ensures
            r@ == self@.headers,
    {
        &self.headers
    }

    /// The body, as far as the response holds it.
    pub fn msgbody(&self) -> (r: &Vec<u8>)
        ensures
            r@ == self@.msgbody,
    {
        &self.msgbody
    }

    /// The body, taken out of the response.
    pub fn into_msgbody(self) -> (r: Vec<u8>)
        ensures
            r@ == self@.msgbody,
    {
        self.msgbody
    }

    /// The path of the file that holds the body, where it went to disk.
    pub fn msgbody_persist(&self) -> (r: Option<&str>)
        ensures
            opt_text(r) == self@.msgbody_persist,
    {
        match &self.msgbody_persist {
            None => None,
            Some(m) => Some(m.as_str()),
        }
    }

    /// Whether the status code is 200.
    pub fn is_ok(&self) -> (r: bool)
        ensures
            r == (self@.status.len() >= 3 && self@.status.take(3) == utf8("200"@)),
    {
        self.status.len() >= 3 && same_bytes(
            vstd::slice::slice_subrange(self.status.as_slice(), 0, 3),
            "200".as_bytes(),
        )
    }

    /// A response with nothing in it.
    pub fn from_scratch() -> (r: Self)
        ensures
            r@ == ResponseView::empty(),
    {
        HttpResponseParts {
            httpver: Vec::new(),
            status: Vec::new(),
            headers: Vec::new(),
            msgbody: Vec::new(),
            msgbody_persist: None,
        }
    }
}

/// The head of a response: everything before the body.
pub struct HeadView {
    pub httpver: Seq<u8>,
    pub status: Seq<u8>,
    pub headers: Seq<u8>,
    /// Where the head ends in the bytes it was read from.
    pub end: int,
}

/// What the parser of responses makes of the head of the bytes `s`.
///
/// Nine bytes name one of the known versions, with the space behind it.
/// Four bytes of status code follow, then the reason up to the first CR,
/// which LF must follow. The header block ends behind the first CRLF CRLF.
pub open spec fn response_head(s: Seq<u8>) -> Parsed<HeadView> {
    if s.len() < 9 {
        Parsed::Need((9 - s.len()) as usize)
    } else if !known_version(s.take(9)) {
        Parsed::Bad(HttpError::InvalidHttpVersion)
    } else if s.len() < 13 {
        Parsed::Need((13 - s.len()) as usize)
    } else {
        match find_byte(s, CR, 13) {
            None => Parsed::Need(1),
            Some(c) => if c + 1 >= s.len() {
                Parsed::Need(1)
            } else if s[c + 1] != LF {
                Parsed::Bad(HttpError::InvalidHttpData)
            } else {
                match block_end(s, c + 2) {
                    None => Parsed::Need(1),
                    Some(e) => Parsed::Done(
                        HeadView {
                            httpver: s.take(8),
                            status: s.subrange(9, c),
                            headers: s.subrange(c + 2, e),
                            end: e,
                        },
                    ),
                }
            },
        }
    }
}

/// How many bytes are left off the two ends of a body: those asked for
/// where the status is 200, none otherwise.
pub open spec fn trims(status: Seq<u8>, insig_head: usize, insig_tail: usize) -> (int, int) {
    if status_is_200(status) {
        (insig_head as int, insig_tail as int)
    } else {
        (0, 0)
    }
}

/// What the parser of responses makes of the bytes `s`, the body kept in
/// memory.
///
/// Without a Content-Length the response ends with its head. With one,
/// that many bytes of body follow, of which the response keeps those
/// between the two trims; trims longer than the body are refused.
pub open spec fn response_parse(s: Seq<u8>, insig_head: usize, insig_tail: usize) -> Parsed<
    ResponseView,
> {
    match response_head(s) {
        Parsed::Need(k) => Parsed::Need(k),
        Parsed::Bad(x) => Parsed::Bad(x),
        Parsed::Done(h) => {
            let head = ResponseView {
                httpver: h.httpver,
                status: h.status,
                headers: h.headers,
                msgbody: Seq::empty(),
                msgbody_persist: None,
            };
            match content_length_result(h.headers) {
                Err(HttpError::HeaderNotExistContentLength) => Parsed::Done(head),
                Err(x) => Parsed::Bad(x),
                Ok(n) => {
                    let (a, z) = trims(h.status, insig_head, insig_tail);
                    if a + z > n {
                        Parsed::Bad(HttpError::InvalidContentLength)
                    } else if s.len() - h.end < n {
                        Parsed::Need((n - (s.len() - h.end)) as usize)
                    } else {
                        Parsed::Done(
                            ResponseView { msgbody: s.subrange(h.end + a, h.end + n - z), ..head },
                        )
                    }
                },
            }
        },
    }
}

/// A parser's outcome with the message as the bytes it holds.
pub open spec fn response_outcome(r: Parsed<HttpResponseParts>) -> Parsed<ResponseView> {
    match r {
        Parsed::Need(k) => Parsed::Need(k),
        Parsed::Bad(e) => Parsed::Bad(e),
        Parsed::Done(m) => Parsed::Done(m@),
    }
}

/// The outcome of reading a head, with the response as the bytes it holds.
pub open spec fn head_outcome(r: Parsed<(HttpResponseParts, usize)>) -> Parsed<HeadView> {
    match r {
        Parsed::Need(k) => Parsed::Need(k),
        Parsed::Bad(e) => Parsed::Bad(e),
        Parsed::Done(m) => Parsed::Done(
            HeadView {
                httpver: m.0@.httpver,
                status: m.0@.status,
                headers: m.0@.headers,
                end: m.1 as int,
            },
        ),
    }
}

impl HttpResponseParts {
    /// Reads the head of a response from the bytes received so far, and
    /// says where it ends. The response comes without body.
    pub fn head_from_bytes(input: &[u8]) -> (r: Parsed<(HttpResponseParts, usize)>)
        ensures
            head_outcome(r) == response_head(input@),
            r matches Parsed::Done(m) ==> m.0@.msgbody == Seq::<u8>::empty()
                && m.0@.msgbody_persist.is_none() && m.1 <= input@.len(),
    {
        let len = input.len();
        if len < 9 {
            return Parsed::Need(9 - len);
        }
        proof {
            assert(input@.subrange(0, 9) =~= input@.take(9));
        }
        if !is_known_version(vstd::slice::slice_subrange(input, 0, 9)) {
            return Parsed::Bad(HttpError::InvalidHttpVersion);
        }
        if len < 13 {
            return Parsed::Need(13 - len);
        }
        proof {
            assert(input@.take(len as int) =~= input@);
            lemma_find_byte_bounds(input@, CR, 13);
        }
        let c = match scan_byte(input, CR, 13, len) {
            None => {
                return Parsed::Need(1);
            },
            Some(c) => c,
        };
        if len - c < 2 {
            return Parsed::Need(1);
        }
        if input[c + 1] != LF {
            return Parsed::Bad(HttpError::InvalidHttpData);
        }
        proof {
            lemma_block_end_bounds(input@, c + 2);
        }
        let e = match scan_block_end(input, c + 2) {
            None => {
                return Parsed::Need(1);
            },
            Some(e) => e,
        };
        let resp = HttpResponseParts {
            httpver: copy_range(input, 0, 8),
            status: copy_range(input, 9, c),
            headers: copy_range(input, c + 2, e),
            msgbody: Vec::new(),
            msgbody_persist: None,
        };
        proof {
            assert(input@.subrange(0, 8) =~= input@.take(8));
        }
        Parsed::Done((resp, e))
    }

    /// Reads a response from the bytes received so far, the body kept in
    /// memory without its first `insig_head` and last `insig_tail` bytes.
    pub fn from_bytes(input: &[u8], insig_head: usize, insig_tail: usize) -> (r: Parsed<
        HttpResponseParts,
    >)
        ensures
            response_outcome(r) == response_parse(input@, insig_head, insig_tail),
    {
        let (mut resp, end) = match Self::head_from_bytes(input) {
            Parsed::Need(k) => {
                return Parsed::Need(k);
            },
            Parsed::Bad(x) => {
                return Parsed::Bad(x);
            },
            Parsed::Done(m) => m,
        };
        match header_number(&resp.headers) {
            Err(HttpError::HeaderNotExistContentLength) => Parsed::Done(resp),
            Err(x) => Parsed::Bad(x),
            Ok(n) => {
                let (a, z) = if is_200(resp.status.as_slice()) {
                    (insig_head, insig_tail)
                } else {
                    (0, 0)
                };
                if a > n || z > n - a {
                    Parsed::Bad(HttpError::InvalidContentLength)
                } else if input.len() - end < n {
                    Parsed::Need(n - (input.len() - end))
                } else {
                    resp.msgbody = copy_range(input, end + a, end + n - z);
                    Parsed::Done(resp)
                }
            },
        }
    }
}


// ------------------------------------------------- bytes that arrive later --

proof fn lemma_find_byte_stable(s: Seq<u8>, e: Seq<u8>, b: u8, from: int)
    requires
        find_byte(s, b, from) is Some,
    ensures
        find_byte(s + e, b, from) == find_byte(s, b, from),
    decreases s.len() - from,
{
    if 0 <= from < s.len() {
        assert((s + e)[from] == s[from]);
        if s[from] != b {
            lemma_find_byte_stable(s, e, b, from + 1);
        }
    }
}

proof fn lemma_block_end_stable(s: Seq<u8>, e: Seq<u8>, from: int)
    requires
        block_end(s, from) is Some,
    ensures
        block_end(s + e, from) == block_end(s, from),
    decreases s.len() - from,
{
    if 0 <= from && from + 4 <= s.len() {
        assert((s + e)[from] == s[from] && (s + e)[from + 1] == s[from + 1] && (s + e)[from + 2]
            == s[from + 2] && (s + e)[from + 3] == s[from + 3]);
        if !blank_at(s, from) {
            lemma_block_end_stable(s, e, from + 1);
        }
    }
}

/// A head that was read stays as it is, whatever bytes arrive behind it.
pub proof fn lemma_response_head_stays(s: Seq<u8>, e: Seq<u8>)
    requires
        response_head(s) is Done,
    ensures
        response_head(s + e) == response_head(s),
{
    let t = s + e;
    assert(t.take(9) =~= s.take(9));
    lemma_find_byte_stable(s, e, CR, 13);
    lemma_find_byte_bounds(s, CR, 13);
    let c = find_byte(s, CR, 13)->Some_0;
    assert(t[c + 1] == s[c + 1]);
    lemma_block_end_stable(s, e, c + 2);
    lemma_block_end_bounds(s, c + 2);
    let end = block_end(s, c + 2)->Some_0;
    assert(t.take(8) =~= s.take(8));
    assert(t.subrange(9, c) =~= s.subrange(9, c));
    assert(t.subrange(c + 2, end) =~= s.subrange(c + 2, end));
}

/// The parser of responses asks for no byte that is not the message's:
/// where it asks for `k` more bytes, no fewer than `k` bytes complete the
/// message, so that a reader who takes from a stream just what is asked
/// for never takes a byte of what follows the message.
pub proof fn lemma_response_need_is_due(
    s: Seq<u8>,
    e: Seq<u8>,
    insig_head: usize,
    insig_tail: usize,
    k: usize,
)
    requires
        response_parse(s, insig_head, insig_tail) == Parsed::<ResponseView>::Need(k),
        e.len() < k,
    ensures
        response_parse(s + e, insig_head, insig_tail) is Need,
{
    let t = s + e;
    if response_head(s) is Done {
        lemma_response_head_stays(s, e);
    } else {
        if s.len() < 9 {
        } else if s.len() < 13 {
            assert(t.take(9) =~= s.take(9));
        } else {
            assert(e.len() == 0);
            assert(t =~= s);
        }
    }
}

/// The parser of requests asks for no byte that is not the message's.
pub proof fn lemma_request_need_is_due(s: Seq<u8>, e: Seq<u8>, k: usize)
    requires
        request_parse(s) == Parsed::<RequestView>::Need(k),
        e.len() < k,
    ensures
        request_parse(s + e) is Need,
{
    let t = s + e;
    if k == 1 {
        assert(t =~= s);
    } else {
        lemma_find_byte_bounds(s, CR, 0);
        let c = find_byte(s, CR, 0)->Some_0;
        lemma_find_byte_stable(s, e, CR, 0);
        assert(t[c + 1] == s[c + 1]);
        assert(t.take(c) =~= s.take(c));
        lemma_block_end_bounds(s, c + 2);
        lemma_block_end_stable(s, e, c + 2);
        let end = block_end(s, c + 2)->Some_0;
        let p = find_byte(s.take(c), SP, 0)->Some_0;
        let q = find_byte(s.take(c), SP, p + 1)->Some_0;
        assert(t.subrange(c + 2, end) =~= s.subrange(c + 2, end));
    }
}

// -------------------------------------------------- bodies written to disk --

/// The largest chunk that is read from the peer at once while a body is
/// written to disk.
pub const CHUNK: usize = 1048576;

/// How many bytes at the start of a chunk of `n` bytes are left out, where
/// `skip` bytes are still to be left out.
pub open spec fn cut(skip: nat, n: nat) -> nat {
    if skip > n {
        n
    } else {
        skip
    }
}

/// The chunks in a row.
pub open spec fn joined(chunks: Seq<Seq<u8>>) -> Seq<u8>
    decreases chunks.len(),
{
    if chunks.len() == 0 {
        Seq::empty()
    } else {
        chunks.first() + joined(chunks.drop_first())
    }
}

/// What is written for the chunks, each without what `cut` leaves out,
/// where `skip` bytes are to be left out in all.
pub open spec fn streamed(chunks: Seq<Seq<u8>>, skip: nat) -> Seq<u8>
    decreases chunks.len(),
{
    if chunks.len() == 0 {
        Seq::empty()
    } else {
        let c = chunks.first();
        let k = cut(skip, c.len());
        c.skip(k as int) + streamed(chunks.drop_first(), (skip - k) as nat)
    }
}

/// What is written for the chunks is what they hold in a row, without the
/// first `skip` bytes, however the bytes are spread over the chunks.
pub proof fn lemma_streamed_skips(chunks: Seq<Seq<u8>>, skip: nat)
    requires
        skip <= joined(chunks).len(),
    ensures
        streamed(chunks, skip) == joined(chunks).skip(skip as int),
    decreases chunks.len(),
{
    if chunks.len() == 0 {
        assert(joined(chunks).skip(skip as int) =~= Seq::<u8>::empty());
    } else {
        let c = chunks.first();
        let k = cut(skip, c.len());
        let rest = chunks.drop_first();
        lemma_streamed_skips(rest, (skip - k) as nat);
        assert(joined(chunks).skip(skip as int) =~= c.skip(k as int) + joined(rest).skip(
            skip - k,
        ));
    }
}

/// A body written to disk: where a body of `n` bytes arrives in chunks and
/// `a` bytes are left off its start, the file, cut to `n - a - z` bytes,
/// holds the body without its first `a` and last `z` bytes.
pub proof fn lemma_persisted_body(chunks: Seq<Seq<u8>>, a: nat, z: nat)
    requires
        a + z <= joined(chunks).len(),
    ensures
        streamed(chunks, a).len() == joined(chunks).len() - a,
        streamed(chunks, a).take(joined(chunks).len() - a - z) == joined(chunks).subrange(
            a as int,
            joined(chunks).len() - z,
        ),
{
    lemma_streamed_skips(chunks, a);
    let n = joined(chunks).len();
    assert(joined(chunks).skip(a as int).take(n - a - z) =~= joined(chunks).subrange(
        a as int,
        n - z,
    ));
}

/// The count that is kept while a body goes to disk chunk by chunk.
#[derive(Debug)]
pub struct BodySink {
    left: usize,
    skip: usize,
    keep: usize,
}

impl BodySink {
    /// The bytes of the body that have not arrived yet.
    pub closed spec fn left(&self) -> nat {
        self.left as nat
    }

    /// The bytes that are still to be left out.
    pub closed spec fn skip(&self) -> nat {
        self.skip as nat
    }

    /// The length that the file is cut to in the end.
    pub closed spec fn keep(&self) -> nat {
        self.keep as nat
    }

    /// Starts on the body of `resp`, which is `content_length` bytes long.
    /// Trims longer than the body are refused.
    pub fn start(
        resp: &HttpResponseParts,
        content_length: usize,
        insig_head: usize,
        insig_tail: usize,
    ) -> (r: Result<BodySink, HttpError>)
        ensures
            ({
                let (a, z) = trims(resp@.status, insig_head, insig_tail);
                match r {
                    Ok(sink) => a + z <= content_length && sink.left() == content_length
                        && sink.skip() == a && sink.keep() == content_length - a - z,
                    Err(e) => a + z > content_length && e == HttpError::InvalidContentLength,
                }
            }),
    {
        let (a, z) = if is_200(resp.status.as_slice()) {
            (insig_head, insig_tail)
        } else {
            (0, 0)
        };
        if a > content_length || z > content_length - a {
            Err(HttpError::InvalidContentLength)
        } else {
            Ok(BodySink { left: content_length, skip: a, keep: content_length - a - z })
        }
    }

    /// Whether the whole body has arrived.
    pub fn is_complete(&self) -> (r: bool)
        ensures
            r == (self.left() == 0),
    {
        self.left == 0
    }

    /// Takes note of a chunk of the body and hands back the part of it that
    /// goes to the file: the chunk without what `cut` leaves out. A chunk
    /// longer than what is left of the body is refused.
    pub fn accept<'a>(&mut self, chunk: &'a [u8]) -> (r: Result<&'a [u8], HttpError>)
        ensures
            match r {
                Ok(w) => {
                    &&& chunk@.len() <= old(self).left()
                    &&& w@ == chunk@.skip(cut(old(self).skip(), chunk@.len()) as int)
                    &&& final(self).left() == old(self).left() - chunk@.len()
                    &&& final(self).skip() == old(self).skip() - cut(
                        old(self).skip(),
                        chunk@.len(),
                    )
                    &&& final(self).keep() == old(self).keep()
                },
                Err(e) => chunk@.len() > old(self).left() && e == HttpError::InvalidContentLength
                    && *final(self) == *old(self),
            },
    {
        let nread = chunk.len();
        if self.left < nread {
            return Err(HttpError::InvalidContentLength);
        }
        self.left = self.left - nread;
        let lo = if self.skip > nread {
            nread
        } else {
            self.skip
        };
        self.skip = self.skip - lo;
        proof {
            assert(chunk@.subrange(lo as int, nread as int) =~= chunk@.skip(lo as int));
        }
        Ok(vstd::slice::slice_subrange(chunk, lo, nread))
    }

    /// Ends the transfer: where the whole body has arrived, `resp` gets the
    /// path of the file, and the result is the length to cut the file to.
    pub fn finish(self, resp: &mut HttpResponseParts, path: &str) -> (r: Result<usize, HttpError>)
        ensures
            match r {
                Ok(n) => self.left() == 0 && n == self.keep() && final(resp)@ == (ResponseView {
                    msgbody_persist: Some(path@),
                    ..old(resp)@
                }),
                Err(e) => self.left() > 0 && e == HttpError::IncompleteFinish && *final(resp)
                    == *old(resp),
            },
    {
        if self.left == 0 {
            resp.msgbody_persist = Some(path.to_owned());
            Ok(self.keep)
        } else {
            Err(HttpError::IncompleteFinish)
        }
    }
}

} // verus!
