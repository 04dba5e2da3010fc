//! HTTP/1.1 messages of the daemon: requests as the shell writes them, responses as it
//! reads them.

use vstd::prelude::*;
use vstd::slice::slice_subrange;
use vstd::string::*;
use vstd::utf8::*;

use crate::text::{
    chars_of, decimal, is_digit, law_decimal_value, law_second_word, lossy_text, push_decimal,
    read_second_number, second_number, second_word, utf8_lossy, utf8_text, white_space,
};

verus! {

/// A response: its status code and its body.
#[derive(Debug)]
pub struct HttpResp {
    pub status: u16,
    pub body: String,
}

/// Why a response cannot be used.
#[derive(Clone, Copy, Debug, PartialEq, Eq, Structural)]
pub enum HttpError {
    /// No blank line ends the headers.
    NoSplit,
    /// The headers are not valid UTF-8.
    NonUtf8Headers,
    /// There is no line before the blank line.
    NoStatusLine,
    /// The status line holds no status code.
    BadStatus,
    /// The daemon refused the request with this status code.
    Status(u16),
}

impl HttpError {
    /// What the message says.
    pub open spec fn text(self) -> Seq<char> {
        match self {
            HttpError::NoSplit => "no header/body split"@,
            HttpError::NonUtf8Headers => "non-utf8 headers"@,
            HttpError::NoStatusLine => "no status line"@,
            HttpError::BadStatus => "bad status"@,
            HttpError::Status(code) => "HTTP "@ + decimal(code as nat),
        }
    }

    /// The message of the error.
    pub fn message(self) -> (r: String)
        ensures
            r@ == self.text(),
            r@ == match self {
                HttpError::NoSplit => "no header/body split"@,
                HttpError::NonUtf8Headers => "non-utf8 headers"@,
                HttpError::NoStatusLine => "no status line"@,
                HttpError::BadStatus => "bad status"@,
                HttpError::Status(code) => "HTTP "@ + decimal(code as nat),
            },
    {
        match self {
            HttpError::NoSplit => "no header/body split".to_owned(),
            HttpError::NonUtf8Headers => "non-utf8 headers".to_owned(),
            HttpError::NoStatusLine => "no status line".to_owned(),
            HttpError::BadStatus => "bad status".to_owned(),
            HttpError::Status(code) => {
                let mut out = "HTTP ".to_owned();
                push_decimal(&mut out, code as usize);
                out
            },
        }
    }
}

/// A blank line, CR LF CR LF, stands at the place `i`.
pub open spec fn double_crlf_at(buf: Seq<u8>, i: int) -> bool {
    &&& 0 <= i
    &&& i + 4 <= buf.len()
    &&& buf[i] == 13
    &&& buf[i + 1] == 10
    &&& buf[i + 2] == 13
    &&& buf[i + 3] == 10
}

/// The first blank line stands at the place `i`.
pub open spec fn first_double_crlf(buf: Seq<u8>, i: int) -> bool {
    &&& double_crlf_at(buf, i)
    &&& forall|j: int| 0 <= j < i ==> !#[trigger] double_crlf_at(buf, j)
}

/// Where the first blank line stands.
pub open spec fn header_end(buf: Seq<u8>) -> Option<int> {
    if exists|i: int| first_double_crlf(buf, i) {
        Some(choose|i: int| first_double_crlf(buf, i))
    } else {
        None
    }
}

/// The first blank line has one place.
pub proof fn lemma_header_end(buf: Seq<u8>, i: int)
    requires
        first_double_crlf(buf, i),
    ensures
        header_end(buf) == Some(i),
{
    let k = choose|k: int| first_double_crlf(buf, k);
    assert(first_double_crlf(buf, k));
    if k < i {
        assert(!double_crlf_at(buf, k));
    }
    if i < k {
        assert(!double_crlf_at(buf, i));
    }
}

/// Finds the first blank line.
pub fn find_double_crlf(buf: &[u8]) -> (r: Option<usize>)
    ensures
        match r {
            Some(i) => header_end(buf@) == Some(i as int) && first_double_crlf(buf@, i as int),
            None => header_end(buf@) is None && forall|i: int| !#[trigger] double_crlf_at(buf@, i),
        },
{
    let n = buf.len();
    let mut i: usize = 0;
    while i < n && n - i >= 4
        invariant
            n == buf@.len(),
            i <= n,
            forall|j: int| 0 <= j < i ==> !#[trigger] double_crlf_at(buf@, j),
        decreases n - i,
    {
        if buf[i] == 13 && buf[i + 1] == 10 && buf[i + 2] == 13 && buf[i + 3] == 10 {
            proof {
                lemma_header_end(buf@, i as int);
            }
            return Some(i);
        }
        i += 1;
    }
    assert forall|j: int| !#[trigger] double_crlf_at(buf@, j) by {
        if double_crlf_at(buf@, j) {
            assert(j < i);
        }
    }
    None
}

/// The number of characters before the first line feed.
pub open spec fn line_feed_at(s: Seq<char>) -> int
    decreases s.len(),
{
    if s.len() == 0 || s[0] == '\n' {
        0
    } else {
        1 + line_feed_at(s.drop_first())
    }
}

/// The first line of a text, without its line ending, which is a line feed with or without
/// a carriage return before it. An empty text has no line.
pub open spec fn first_line(s: Seq<char>) -> Option<Seq<char>> {
    let n = line_feed_at(s);
    if s.len() == 0 {
        None
    } else if 0 < n < s.len() && s[n - 1] == '\r' {
        Some(s.take(n - 1))
    } else {
        Some(s.take(n))
    }
}

proof fn lemma_line_feed_at(s: Seq<char>, k: int)
    requires
        0 <= k <= s.len(),
        forall|j: int| 0 <= j < k ==> #[trigger] s[j] != '\n',
        k == s.len() || s[k] == '\n',
    ensures
        line_feed_at(s) == k,
    decreases k,
{
    if k > 0 {
        let rest = s.drop_first();
        assert forall|j: int| 0 <= j < k - 1 implies #[trigger] rest[j] != '\n' by {
            assert(rest[j] == s[j + 1]);
        }
        lemma_line_feed_at(rest, k - 1);
    }
}

/// The length of the first line.
fn first_line_len(chars: &Vec<char>) -> (r: usize)
    requires
        chars@.len() > 0,
    ensures
        r <= chars@.len(),
        first_line(chars@) == Some(chars@.take(r as int)),
{
    let mut i: usize = 0;
    while i < chars.len() && chars[i] != '\n'
        invariant
            i <= chars@.len(),
            forall|j: int| 0 <= j < i ==> #[trigger] chars@[j] != '\n',
        decreases chars@.len() - i,
    {
        i += 1;
    }
    proof {
        lemma_line_feed_at(chars@, i as int);
    }
    if 0 < i && i < chars.len() && chars[i - 1] == '\r' {
        i - 1
    } else {
        i
    }
}

/// What a response says: its status code and its body, or why it says nothing.
///
/// The headers end at the first blank line and are UTF-8. The status code is the second
/// word of the first line. The body is everything behind the blank line.
pub open spec fn http_response(raw: Seq<u8>) -> Result<(u16, Seq<char>), HttpError> {
    match header_end(raw) {
        None => Err(HttpError::NoSplit),
        Some(i) => if !valid_utf8(raw.take(i)) {
            Err(HttpError::NonUtf8Headers)
        } else {
            match first_line(decode_utf8(raw.take(i))) {
                None => Err(HttpError::NoStatusLine),
                Some(line) => match second_number(line) {
                    None => Err(HttpError::BadStatus),
                    Some(code) => Ok((code, lossy_text(raw.skip(i + 4)))),
                },
            }
        },
    }
}

/// Reads a response. A body of valid UTF-8 is read as the text that it encodes.
pub fn parse_http(raw: &[u8]) -> (r: Result<HttpResp, HttpError>)
    ensures
        match r {
            Ok(resp) => http_response(raw@) == Ok::<(u16, Seq<char>), HttpError>(
                (resp.status, resp.body@),
            ),
            Err(e) => http_response(raw@) == Err::<(u16, Seq<char>), HttpError>(e),
        },
        r matches Ok(resp) ==> valid_utf8(raw@.skip(header_end(raw@)->0 + 4)) ==> resp.body@
            == decode_utf8(raw@.skip(header_end(raw@)->0 + 4)),
{
    let split = match find_double_crlf(raw) {
        Some(i) => i,
        None => {
            return Err(HttpError::NoSplit);
        },
    };
    let head_bytes = slice_subrange(raw, 0, split);
    assert(head_bytes@ =~= raw@.take(split as int));
    let head = match utf8_text(head_bytes) {
        Some(s) => chars_of(s),
        None => {
            return Err(HttpError::NonUtf8Headers);
        },
    };
    if head.len() == 0 {
        return Err(HttpError::NoStatusLine);
    }
    let status = match read_second_number(&head, first_line_len(&head)) {
        Some(code) => code,
        None => {
            return Err(HttpError::BadStatus);
        },
    };
    let end = raw.len();
    let body_bytes = slice_subrange(raw, split + 4, end);
    assert(body_bytes@ =~= raw@.skip(split + 4));
    Ok(HttpResp { status, body: utf8_lossy(body_bytes) })
}

/// The body of a response that is no refusal: a status code from 400 on refuses the
/// request.
pub open spec fn accepted_body(raw: Seq<u8>) -> Result<Seq<char>, HttpError> {
    match http_response(raw) {
        Ok((code, body)) => if code >= 400 {
            Err(HttpError::Status(code))
        } else {
            Ok(body)
        },
        Err(e) => Err(e),
    }
}

/// The body of a response to the pattern monitor, which tells a missing status line and a
/// bad one no further apart.
pub open spec fn http_body(raw: Seq<u8>) -> Result<Seq<char>, HttpError> {
    match accepted_body(raw) {
        Err(HttpError::NoStatusLine) => Err(HttpError::BadStatus),
        r => r,
    }
}

/// Reads the body of a response that is no refusal. A body of valid UTF-8 is read as the text
/// that it encodes.
pub fn parse_http_body(raw: &[u8]) -> (r: Result<String, HttpError>)
    ensures
        match r {
            Ok(body) => http_body(raw@) == Ok::<Seq<char>, HttpError>(body@),
            Err(e) => http_body(raw@) == Err::<Seq<char>, HttpError>(e),
        },
        r matches Ok(body) ==> valid_utf8(raw@.skip(header_end(raw@)->0 + 4)) ==> body@
            == decode_utf8(raw@.skip(header_end(raw@)->0 + 4)),
{
    match parse_http(raw) {
        Ok(resp) => if resp.status >= 400 {
            Err(HttpError::Status(resp.status))
        } else {
            Ok(resp.body)
        },
        Err(HttpError::NoStatusLine) => Err(HttpError::BadStatus),
        Err(e) => Err(e),
    }
}

/// The bytes of an answer, where there is one.
pub open spec fn answer_bytes(answer: Option<&[u8]>) -> Option<Seq<u8>> {
    match answer {
        Some(raw) => Some(raw@),
        None => None,
    }
}

/// The text of a `GET` request.
pub open spec fn get_text(path: Seq<char>) -> Seq<char> {
    "GET "@ + path
        + " HTTP/1.1\r\nHost: localhost\r\nAccept: application/json\r\nConnection: close\r\n\r\n"@
}

/// Writes a `GET` request.
pub fn get_request(path: &str) -> (r: String)
    ensures
        r@ == get_text(path@),
        r@ == "GET "@ + path@
            + " HTTP/1.1\r\nHost: localhost\r\nAccept: application/json\r\nConnection: close\r\n\r\n"@,
{
    let mut out = "GET ".to_owned();
    out.append(path);
    out.append(
        " HTTP/1.1\r\nHost: localhost\r\nAccept: application/json\r\nConnection: close\r\n\r\n",
    );
    out
}

/// The text of a `POST` request; its length header counts the bytes of the body.
pub open spec fn post_text(path: Seq<char>, body: Seq<char>) -> Seq<char> {
    "POST "@ + path
        + " HTTP/1.1\r\nHost: localhost\r\nContent-Type: application/json\r\nContent-Length: "@
        + decimal(encode_utf8(body).len()) + "\r\nConnection: close\r\n\r\n"@ + body
}

/// Writes a `POST` request.
pub fn post_request(path: &str, body: &str) -> (r: String)
    ensures
        r@ == post_text(path@, body@),
        r@ == "POST "@ + path@
            + " HTTP/1.1\r\nHost: localhost\r\nContent-Type: application/json\r\nContent-Length: "@
            + decimal(encode_utf8(body@).len()) + "\r\nConnection: close\r\n\r\n"@ + body@,
{
    let mut out = "POST ".to_owned();
    out.append(path);
    out.append(
        " HTTP/1.1\r\nHost: localhost\r\nContent-Type: application/json\r\nContent-Length: ",
    );
    push_decimal(&mut out, body.as_bytes().len());
    out.append("\r\nConnection: close\r\n\r\n");
    out.append(body);
    out
}

/// The bytes of a blank line.
pub open spec fn blank_line() -> Seq<u8> {
    seq![13u8, 10, 13, 10]
}

/// A response is read as it was written: behind a head with a status code and no blank line
/// in it, everything after the blank line is the body, whatever the body holds.
pub proof fn law_response_body(head: Seq<u8>, body: Seq<u8>, code: u16)
    requires
        valid_utf8(head),
        first_line(decode_utf8(head)) matches Some(line) && second_number(line) == Some(code),
        forall|i: int| 0 <= i < head.len() ==> !#[trigger] double_crlf_at(head + blank_line(), i),
    ensures
        http_response(head + blank_line() + body) == Ok::<(u16, Seq<char>), HttpError>(
            (code, lossy_text(body)),
        ),
{
    let short = head + blank_line();
    let raw = short + body;
    let n = head.len() as int;
    assert(raw[n] == 13 && raw[n + 1] == 10 && raw[n + 2] == 13 && raw[n + 3] == 10);
    assert forall|j: int| 0 <= j < n implies !#[trigger] double_crlf_at(raw, j) by {
        assert(!double_crlf_at(short, j));
        assert(raw[j] == short[j] && raw[j + 1] == short[j + 1] && raw[j + 2] == short[j + 2]
            && raw[j + 3] == short[j + 3]);
    }
    lemma_header_end(raw, n);
    assert(raw.take(n) =~= head);
    assert(raw.skip(n + 4) =~= body);
}

/// The first line of a `GET` request names its path: a path without white space is the
/// second word, and nothing of it runs over into another line.
pub proof fn law_get_path(path: Seq<char>)
    requires
        path.len() > 0,
        forall|i: int| 0 <= i < path.len() ==> !white_space(#[trigger] path[i]),
    ensures
        first_line(get_text(path)) == Some("GET "@ + path + " HTTP/1.1"@),
        second_word("GET "@ + path + " HTTP/1.1"@) == Some(path),
{
    reveal_strlit("GET ");
    reveal_strlit(" HTTP/1.1");
    reveal_strlit(
        " HTTP/1.1\r\nHost: localhost\r\nAccept: application/json\r\nConnection: close\r\n\r\n",
    );
    let a = "GET "@;
    let version = " HTTP/1.1"@;
    let b =
        " HTTP/1.1\r\nHost: localhost\r\nAccept: application/json\r\nConnection: close\r\n\r\n"@;
    let s = get_text(path);
    let n = 4 + path.len() + 10;
    assert(b[10] == '\n' && b[9] == '\r');
    assert(version =~= b.take(9));
    assert forall|j: int| 0 <= j < n implies #[trigger] s[j] != '\n' by {
        if j < 4 {
            assert(s[j] == a[j]);
        } else if j < 4 + path.len() {
            assert(s[j] == path[j - 4]);
        } else {
            assert(s[j] == b[j - 4 - path.len()]);
        }
    }
    assert(s[n as int] == b[10]);
    assert(s[n - 1] == b[9]);
    lemma_line_feed_at(s, n as int);
    let line = a + path + version;
    assert(s.take(n - 1) =~= line);
    let get = seq!['G', 'E', 'T'];
    let rest = seq!['H', 'T', 'T', 'P', '/', '1', '.', '1'];
    assert(a =~= get + seq![' ']);
    assert(version =~= seq![' '] + rest);
    assert(line =~= get + seq![' '] + path + seq![' '] + rest);
    law_second_word(get, path, rest);
}

/// The characters of a path that need no encoding: visible ASCII.
pub open spec fn visible(path: Seq<char>) -> bool {
    forall|i: int| 0 <= i < path.len() ==> '!' <= #[trigger] path[i] <= '~'
}

/// Texts are encoded one after the other.
proof fn lemma_encode_concat(a: Seq<char>, b: Seq<char>)
    ensures
        encode_utf8(a + b) == encode_utf8(a) + encode_utf8(b),
    decreases a.len(),
{
    if a.len() == 0 {
        assert(a + b =~= b);
        assert(encode_utf8(a) + encode_utf8(b) =~= encode_utf8(b));
    } else {
        lemma_encode_concat(a.drop_first(), b);
        assert((a + b).drop_first() =~= a.drop_first() + b);
        assert(encode_utf8(a + b) =~= encode_utf8(a) + encode_utf8(b));
    }
}

/// The head of a request: ASCII, and ended by its only blank line.
spec fn framed_head(head: Seq<char>) -> bool {
    let n = head.len() - 4;
    &&& n >= 0
    &&& forall|i: int| 0 <= i < head.len() ==> '\0' <= #[trigger] head[i] <= '\u{7f}'
    &&& head[n] == '\r' && head[n + 1] == '\n' && head[n + 2] == '\r' && head[n + 3] == '\n'
    &&& forall|i: int| 0 <= i < n && #[trigger] head[i] == '\r' ==> head[i + 2] != '\r'
}

proof fn lemma_framed(head: Seq<char>, body: Seq<char>)
    requires
        framed_head(head),
    ensures
        header_end(encode_utf8(head + body)) == Some(head.len() - 4),
        encode_utf8(head + body).skip(head.len() as int) == encode_utf8(body),
        encode_utf8(head + body).len() == head.len() + encode_utf8(body).len(),
{
    let n = head.len() - 4;
    let bytes = encode_utf8(head + body);
    lemma_encode_concat(head, body);
    is_ascii_chars_encode_utf8(head);
    let h = encode_utf8(head);
    assert(h =~= Seq::new(head.len(), |i: int| head[i] as u8));
    assert forall|j: int| 0 <= j < n implies !#[trigger] double_crlf_at(bytes, j) by {
        assert(bytes[j] == head[j] as u8);
        assert(bytes[j + 2] == head[j + 2] as u8);
        assert('\0' <= head[j] <= '\u{7f}' && '\0' <= head[j + 2] <= '\u{7f}');
    }
    assert(bytes[n] == head[n] as u8 && bytes[n + 1] == head[n + 1] as u8 && bytes[n + 2] == head[n
        + 2] as u8 && bytes[n + 3] == head[n + 3] as u8);
    lemma_header_end(bytes, n);
    assert(bytes.skip(head.len() as int) =~= encode_utf8(body));
}

/// A decimal digit lies between `0` and `9`.
proof fn lemma_digit_range(c: char)
    requires
        is_digit(c),
    ensures
        '0' <= c <= '9',
{
}

/// The body of a `POST` request begins right behind its first blank line, and the bytes there
/// are the ones that its length header counts.
pub proof fn law_post_frames_body(path: Seq<char>, body: Seq<char>)
    requires
        visible(path),
    ensures
        ({
            let bytes = encode_utf8(post_text(path, body));
            let sent = encode_utf8(body);
            &&& header_end(bytes) == Some(bytes.len() - sent.len() - 4)
            &&& bytes.skip(bytes.len() - sent.len()) == sent
        }),
{
    reveal_strlit("POST ");
    reveal_strlit(
        " HTTP/1.1\r\nHost: localhost\r\nContent-Type: application/json\r\nContent-Length: ",
    );
    reveal_strlit("\r\nConnection: close\r\n\r\n");
    let a = "POST "@;
    let b = " HTTP/1.1\r\nHost: localhost\r\nContent-Type: application/json\r\nContent-Length: "@;
    let digits = decimal(encode_utf8(body).len());
    let c = "\r\nConnection: close\r\n\r\n"@;
    let head = a + path + b + digits + c;
    law_decimal_value(encode_utf8(body).len());
    assert(post_text(path, body) =~= head + body);
    let p = (a.len() + path.len()) as int;
    let q = (p + b.len()) as int;
    let r = (q + digits.len()) as int;
    assert forall|i: int| 0 <= i < b.len() implies ('\0' <= #[trigger] b[i] <= '\u{7f}' && (b[i]
        == '\r' ==> i + 2 < b.len() && b[i + 2] != '\r')) by {}
    assert forall|i: int| 0 <= i < c.len() implies ('\0' <= #[trigger] c[i] <= '\u{7f}' && (c[i]
        == '\r' && i < c.len() - 4 ==> c[i + 2] != '\r')) by {}
    assert forall|i: int| 0 <= i < head.len() implies '\0' <= #[trigger] head[i] <= '\u{7f}' by {
        if i < a.len() {
            assert(head[i] == a[i]);
        } else if i < p {
            assert(head[i] == path[i - a.len()]);
        } else if i < q {
            assert(head[i] == b[i - p]);
        } else if i < r {
            assert(head[i] == digits[i - q]);
            lemma_digit_range(digits[i - q]);
        } else {
            assert(head[i] == c[i - r]);
        }
    }
    let n = head.len() - 4;
    assert forall|i: int| 0 <= i < n && #[trigger] head[i] == '\r' implies head[i + 2] != '\r' by {
        if i < a.len() {
            assert(head[i] == a[i]);
        } else if i < p {
            assert(head[i] == path[i - a.len()]);
        } else if i < q {
            assert(head[i] == b[i - p]);
            assert(head[i + 2] == b[i - p + 2]);
        } else if i < r {
            assert(head[i] == digits[i - q]);
            lemma_digit_range(digits[i - q]);
        } else {
            assert(head[i] == c[i - r]);
            assert(head[i + 2] == c[i - r + 2]);
        }
    }
    assert(head[n] == c[c.len() - 4] && head[n + 1] == c[c.len() - 3] && head[n + 2] == c[c.len()
        - 2] && head[n + 3] == c[c.len() - 1]);
    lemma_framed(head, body);
}

/// A `GET` request ends in its only blank line.
pub proof fn law_get_ends_in_blank_line(path: Seq<char>)
    requires
        visible(path),
    ensures
        header_end(encode_utf8(get_text(path))) == Some(encode_utf8(get_text(path)).len() - 4),
{
    reveal_strlit("GET ");
    reveal_strlit(
        " HTTP/1.1\r\nHost: localhost\r\nAccept: application/json\r\nConnection: close\r\n\r\n",
    );
    let a = "GET "@;
    let b =
        " HTTP/1.1\r\nHost: localhost\r\nAccept: application/json\r\nConnection: close\r\n\r\n"@;
    let head = get_text(path);
    let p = (a.len() + path.len()) as int;
    assert forall|i: int| 0 <= i < b.len() implies ('\0' <= #[trigger] b[i] <= '\u{7f}' && (b[i]
        == '\r' && i < b.len() - 4 ==> b[i + 2] != '\r')) by {}
    assert forall|i: int| 0 <= i < head.len() implies '\0' <= #[trigger] head[i] <= '\u{7f}' by {
        if i < a.len() {
            assert(head[i] == a[i]);
        } else if i < p {
            assert(head[i] == path[i - a.len()]);
        } else {
            assert(head[i] == b[i - p]);
        }
    }
    let n = head.len() - 4;
    assert forall|i: int| 0 <= i < n && #[trigger] head[i] == '\r' implies head[i + 2] != '\r' by {
        if i < a.len() {
            assert(head[i] == a[i]);
        } else if i < p {
            assert(head[i] == path[i - a.len()]);
        } else {
            assert(head[i] == b[i - p]);
            assert(head[i + 2] == b[i - p + 2]);
        }
    }
    assert(head[n] == b[b.len() - 4] && head[n + 1] == b[b.len() - 3] && head[n + 2] == b[b.len()
        - 2] && head[n + 3] == b[b.len() - 1]);
    lemma_framed(head, seq![]);
    assert(head + Seq::<char>::empty() =~= head);
}

/// The headers end at the first place where the bytes CR LF CR LF stand.
pub proof fn law_headers_end_at_first_blank_line(raw: Seq<u8>, i: int)
    requires
        0 <= i,
        i + 4 <= raw.len(),
        raw[i] == 13 && raw[i + 1] == 10 && raw[i + 2] == 13 && raw[i + 3] == 10,
        forall|j: int|
            0 <= j < i ==> !(#[trigger] raw[j] == 13 && raw[j + 1] == 10 && raw[j + 2] == 13 && raw[j
                + 3] == 10),
    ensures
        header_end(raw) == Some(i),
{
    assert forall|j: int| 0 <= j < i implies !#[trigger] double_crlf_at(raw, j) by {
        assert(!(raw[j] == 13 && raw[j + 1] == 10 && raw[j + 2] == 13 && raw[j + 3] == 10));
    }
    lemma_header_end(raw, i);
}

/// Without the bytes CR LF CR LF the headers do not end, and there is no response.
pub proof fn law_headers_need_blank_line(raw: Seq<u8>)
    requires
        forall|j: int|
            0 <= j && j + 4 <= raw.len() ==> !(#[trigger] raw[j] == 13 && raw[j + 1] == 10 && raw[j
                + 2] == 13 && raw[j + 3] == 10),
    ensures
        header_end(raw) is None,
        http_response(raw) == Err::<(u16, Seq<char>), HttpError>(HttpError::NoSplit),
{
    if exists|i: int| first_double_crlf(raw, i) {
        let i = choose|i: int| first_double_crlf(raw, i);
        assert(double_crlf_at(raw, i));
        assert(raw[i] == 13);
    }
}

/// The first line of a text is what comes before its first line feed, less one carriage
/// return there, or the whole text where it has no line feed; an empty text has none.
pub proof fn law_first_line(line: Seq<char>, rest: Seq<char>)
    requires
        forall|i: int| 0 <= i < line.len() ==> #[trigger] line[i] != '\n',
    ensures
        first_line(line + seq!['\n'] + rest) == if line.len() > 0 && line.last() == '\r' {
            Some(line.drop_last())
        } else {
            Some(line)
        },
        line.len() > 0 ==> first_line(line) == Some(line),
        first_line(Seq::empty()) is None,
{
    let s = line + seq!['\n'] + rest;
    let n = line.len() as int;
    assert forall|j: int| 0 <= j < n implies #[trigger] s[j] != '\n' by {
        assert(s[j] == line[j]);
    }
    assert(s[n] == '\n');
    lemma_line_feed_at(s, n);
    lemma_line_feed_at(line, n);
    assert(s.take(n) =~= line);
    assert(line.take(n) =~= line);
    if n > 0 {
        assert(s[n - 1] == line.last());
        assert(s.take(n - 1) =~= line.drop_last());
    }
}

/// What a response says, where its headers end at the place `i`: the status code is the
/// second word of the first line of the headers, the body is everything behind the blank
/// line, and headers that are no text, no line or hold no status code say so.
pub proof fn law_response_is_read(raw: Seq<u8>, i: int)
    requires
        header_end(raw) == Some(i),
        0 <= i,
        i + 4 <= raw.len(),
    ensures
        !valid_utf8(raw.take(i)) ==> http_response(raw) == Err::<(u16, Seq<char>), HttpError>(
            HttpError::NonUtf8Headers,
        ),
        i == 0 ==> http_response(raw) == Err::<(u16, Seq<char>), HttpError>(
            HttpError::NoStatusLine,
        ),
        valid_utf8(raw.take(i)) ==> (first_line(decode_utf8(raw.take(i))) matches Some(line)
            ==> http_response(raw) == match second_number(line) {
            Some(code) => Ok::<(u16, Seq<char>), HttpError>((code, lossy_text(raw.skip(i + 4)))),
            None => Err::<(u16, Seq<char>), HttpError>(HttpError::BadStatus),
        }),
{
    if i == 0 {
        let head = raw.take(0);
        assert(head.len() == 0);
        assert(valid_utf8(head));
        assert(decode_utf8(head).len() == 0);
    }
}

/// A status code below 400 accepts the request and gives its body; one from 400 on refuses
/// it, whatever the body holds. What is no response stays an error.
pub proof fn law_refusals_start_at_400(raw: Seq<u8>)
    ensures
        http_response(raw) matches Ok((code, body)) ==> {
            &&& code < 400 ==> accepted_body(raw) == Ok::<Seq<char>, HttpError>(body)
            &&& code < 400 ==> http_body(raw) == Ok::<Seq<char>, HttpError>(body)
            &&& code >= 400 ==> accepted_body(raw) == Err::<Seq<char>, HttpError>(
                HttpError::Status(code),
            )
            &&& code >= 400 ==> http_body(raw) == Err::<Seq<char>, HttpError>(
                HttpError::Status(code),
            )
        },
        http_response(raw) matches Err(e) ==> {
            &&& accepted_body(raw) == Err::<Seq<char>, HttpError>(e)
            &&& e is NoStatusLine ==> http_body(raw) == Err::<Seq<char>, HttpError>(
                HttpError::BadStatus,
            )
            &&& !(e is NoStatusLine) ==> http_body(raw) == Err::<Seq<char>, HttpError>(e)
        },
{
}

/// The bytes of an answer are all of them, however many there are.
pub proof fn law_bytes_of_an_answer(raw: &[u8])
    ensures
        answer_bytes(Some(raw)) == Some(raw@),
        answer_bytes(None) is None,
{
}

/// What the messages of the errors say; a refusal names its status code, whatever it is.
pub proof fn law_messages_of_http_errors(code: u16)
    ensures
        HttpError::NoSplit.text() == "no header/body split"@,
        HttpError::NonUtf8Headers.text() == "non-utf8 headers"@,
        HttpError::NoStatusLine.text() == "no status line"@,
        HttpError::BadStatus.text() == "bad status"@,
        HttpError::Status(code).text() == "HTTP "@ + decimal(code as nat),
{
}

} // verus!
