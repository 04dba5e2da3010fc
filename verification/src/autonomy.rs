//! The daemon's resolved autonomy mode, and the circuit breaker that demotes it.
//!
//! Every state is read from answers of the daemon's public HTTP API. A function here either
//! writes a request, or reads the answer that the transport brought back; where the
//! transport brought none, it is given `None`.

use vstd::prelude::*;
use vstd::string::*;
use vstd::utf8::*;

use crate::http::{
    accepted_body, answer_bytes, first_line, get_request, get_text, header_end, http_response,
    law_get_path, parse_http, post_request, post_text, HttpError, HttpResp,
};
use crate::json::{
    distinct_keys, holds_exactly, item_trees, json_document, object_document, object_text,
    parse_json, text_pairs, Json, JsonTree,
};
use crate::text::{decimal, push_decimal, same_text, second_word, white_space};

verus! {

/// How far the daemon may decide by itself; `Unknown` where it has not said.
#[derive(Debug, Clone, Copy, PartialEq, Eq, Structural)]
pub enum AutonomyMode {
    L3,
    L4,
    L5,
    Unknown,
}

impl AutonomyMode {
    /// What the label says.
    pub open spec fn text(self) -> Seq<char> {
        match self {
            AutonomyMode::L3 => "L3"@,
            AutonomyMode::L4 => "L4"@,
            AutonomyMode::L5 => "L5"@,
            AutonomyMode::Unknown => "—"@,
        }
    }

    /// The mode as the surface shows it.
    pub fn label(self) -> (r: &'static str)
        ensures
            r@ == self.text(),
            r@ == match self {
                AutonomyMode::L3 => "L3"@,
                AutonomyMode::L4 => "L4"@,
                AutonomyMode::L5 => "L5"@,
                AutonomyMode::Unknown => "—"@,
            },
    {
        match self {
            AutonomyMode::L3 => "L3",
            AutonomyMode::L4 => "L4",
            AutonomyMode::L5 => "L5",
            AutonomyMode::Unknown => "—",
        }
    }
}

/// The bytes that stand for themselves in a query: letters, digits, `-`, `_`, `.`, `~`.
pub open spec fn unreserved(b: u8) -> bool {
    ||| 65 <= b <= 90
    ||| 97 <= b <= 122
    ||| 48 <= b <= 57
    ||| b == 45
    ||| b == 95
    ||| b == 46
    ||| b == 126
}

/// The characters of the unreserved bytes.
pub open spec fn unreserved_char(c: char) -> bool {
    ||| 'A' <= c <= 'Z'
    ||| 'a' <= c <= 'z'
    ||| '0' <= c <= '9'
    ||| c == '-'
    ||| c == '_'
    ||| c == '.'
    ||| c == '~'
}

/// The upper-case hexadecimal digit worth `d`.
pub open spec fn hex_digit(d: nat) -> char {
    if d < 10 {
        (48 + d) as char
    } else {
        (55 + d) as char
    }
}

/// A byte percent-encoded: itself where it is unreserved, else its two hexadecimal digits.
pub open spec fn encoded_byte(b: u8) -> Seq<char> {
    if unreserved(b) {
        seq![b as char]
    } else {
        seq!['%', hex_digit((b / 16) as nat), hex_digit((b % 16) as nat)]
    }
}

/// Bytes percent-encoded, one after the other.
pub open spec fn encoded(bytes: Seq<u8>) -> Seq<char>
    decreases bytes.len(),
{
    if bytes.len() == 0 {
        seq![]
    } else {
        encoded(bytes.drop_last()) + encoded_byte(bytes.last())
    }
}

fn push_hex_digit(out: &mut String, d: u8)
    requires
        d < 16,
    ensures
        final(out)@ == old(out)@.push(hex_digit(d as nat)),
{
    if d < 10 {
        out.push((48 + d) as char);
    } else {
        out.push((55 + d) as char);
    }
}

/// Percent-encodes a text for a query.
pub fn url_encode(s: &str) -> (r: String)
    ensures
        r@ == encoded(encode_utf8(s@)),
{
    let bytes = s.as_bytes();
    let mut out = String::new();
    let mut i: usize = 0;
    assert(bytes@.take(0) =~= seq![]);
    while i < bytes.len()
        invariant
            i <= bytes@.len(),
            out@ == encoded(bytes@.take(i as int)),
        decreases bytes@.len() - i,
    {
        let b: u8 = bytes[i];
        let ghost before = out@;
        if (65 <= b && b <= 90) || (97 <= b && b <= 122) || (48 <= b && b <= 57) || b == 45 || b
            == 95 || b == 46 || b == 126 {
            out.push(b as char);
        } else {
            out.push('%');
            push_hex_digit(&mut out, b / 16);
            push_hex_digit(&mut out, b % 16);
        }
        proof {
            assert(out@ =~= before + encoded_byte(b));
            assert(bytes@.take(i + 1).drop_last() =~= bytes@.take(i as int));
        }
        i += 1;
    }
    assert(bytes@.take(i as int) =~= bytes@);
    out
}

/// The message of a `GET` that failed.
pub open spec fn get_error_text(path: Seq<char>, e: HttpError) -> Seq<char> {
    match e {
        HttpError::Status(_) => "GET "@ + path + " "@ + e.text(),
        _ => e.text(),
    }
}

/// Reads the body of the answer to `GET path`. A status code from 400 on is an error. A body
/// of valid UTF-8 is read as the text that it encodes.
pub fn http_get_body(path: &str, raw: &[u8]) -> (r: Result<String, String>)
    ensures
        match accepted_body(raw@) {
            Ok(body) => r is Ok && r->Ok_0@ == body,
            Err(e) => r is Err && r->Err_0@ == get_error_text(path@, e),
        },
        accepted_body(raw@) matches Err(HttpError::Status(code)) ==> r->Err_0@ == "GET "@ + path@
            + " "@ + ("HTTP "@ + decimal(code as nat)),
        r matches Ok(body) ==> valid_utf8(raw@.skip(header_end(raw@)->0 + 4)) ==> body@
            == decode_utf8(raw@.skip(header_end(raw@)->0 + 4)),
{
    match parse_http(raw) {
        Ok(resp) => if resp.status >= 400 {
            let mut out = "GET ".to_owned();
            out.append(path);
            out.append(" ");
            out.append(HttpError::Status(resp.status).message().as_str());
            Err(out)
        } else {
            Ok(resp.body)
        },
        Err(e) => Err(e.message()),
    }
}

/// The document that the answer to a `GET` holds, where it is a success and holds one.
pub open spec fn answer_document(answer: Option<Seq<u8>>) -> Option<JsonTree> {
    match answer {
        None => None,
        Some(raw) => match accepted_body(raw) {
            Err(_) => None,
            Ok(body) => match json_document(body) {
                Err(_) => None,
                Ok(document) => Some(document),
            },
        },
    }
}

/// Reads the document that the answer to `GET path` holds.
fn read_answer(path: &str, answer: Option<&[u8]>) -> (r: Option<Json>)
    ensures
        match r {
            Some(j) => answer_document(answer_bytes(answer)) == Some(j@),
            None => answer_document(answer_bytes(answer)) is None,
        },
{
    let raw = match answer {
        Some(raw) => raw,
        None => {
            return None;
        },
    };
    match http_get_body(path, raw) {
        Ok(body) => match parse_json(body.as_str()) {
            Ok(document) => Some(document),
            Err(_) => None,
        },
        Err(_) => None,
    }
}

/// The request for the list of projects.
pub fn projects_request() -> (r: String)
    ensures
        r@ == get_text("/projects"@),
{
    get_request("/projects")
}

/// The id of the first project that a document lists, where there is one and its id is a
/// text. The list is an array, or the first field of an object.
pub open spec fn first_listed_id(document: JsonTree) -> Option<Seq<char>> {
    match document.first_items() {
        Some(items) => if items.len() > 0 {
            items[0].text_field("id"@)
        } else {
            None
        },
        None => None,
    }
}

/// The id of the first project in a document.
pub fn first_project_in(document: &Json) -> (r: Option<String>)
    ensures
        match r {
            Some(id) => first_listed_id(document@) == Some(id@),
            None => first_listed_id(document@) is None,
        },
{
    let items: &Vec<Json> = match document.first_array() {
        Some(items) => items,
        None => {
            return None;
        },
    };
    if items.len() == 0 {
        return None;
    }
    assert(item_trees(items@)[0] == items@[0]@);
    match items[0].text_field("id") {
        Some(id) => Some(id.to_owned()),
        None => None,
    }
}

/// The first project that the daemon knows, from its answer to [`projects_request`]. There
/// is none where the daemon gave no answer, or none that can be read, or an empty list.
pub fn first_project_id(answer: Option<&[u8]>) -> (r: Option<String>)
    ensures
        match answer_document(answer_bytes(answer)) {
            None => r is None,
            Some(document) => match r {
                Some(id) => first_listed_id(document) == Some(id@),
                None => first_listed_id(document) is None,
            },
        },
{
    match read_answer("/projects", answer) {
        Some(document) => first_project_in(&document),
        None => None,
    }
}

/// The path that resolves the autonomy mode of a project.
pub open spec fn resolve_path(project_id: Seq<char>) -> Seq<char> {
    "/autonomy_policies/resolve?project_id="@ + encoded(encode_utf8(project_id))
}

/// Writes the path that resolves the autonomy mode of a project.
pub fn resolve_mode_path(project_id: &str) -> (r: String)
    ensures
        r@ == resolve_path(project_id@),
        r@ == "/autonomy_policies/resolve?project_id="@ + encoded(encode_utf8(project_id@)),
{
    let mut path = "/autonomy_policies/resolve?project_id=".to_owned();
    path.append(url_encode(project_id).as_str());
    path
}

/// The request that resolves the autonomy mode of a project.
pub fn resolve_mode_request(project_id: &str) -> (r: String)
    ensures
        r@ == get_text(resolve_path(project_id@)),
{
    get_request(resolve_mode_path(project_id).as_str())
}

/// The mode that a text names.
pub open spec fn named_mode(text: Option<Seq<char>>) -> AutonomyMode {
    if text == Some("L3"@) {
        AutonomyMode::L3
    } else if text == Some("L4"@) {
        AutonomyMode::L4
    } else if text == Some("L5"@) {
        AutonomyMode::L5
    } else {
        AutonomyMode::Unknown
    }
}

/// The mode that a document resolves to: the text `mode` of its `policy`. Where there is no
/// policy, or it names no known mode, the mode is unknown.
pub open spec fn document_mode(document: JsonTree) -> AutonomyMode {
    match document.field("policy"@) {
        Some(policy) => named_mode(policy.text_field("mode"@)),
        None => AutonomyMode::Unknown,
    }
}

/// The mode that a document resolves to.
pub fn mode_in(document: &Json) -> (r: AutonomyMode)
    ensures
        r == document_mode(document@),
{
    let policy = match document.get("policy") {
        Some(policy) => policy,
        None => {
            return AutonomyMode::Unknown;
        },
    };
    match policy.text_field("mode") {
        Some(mode) => {
            if same_text(mode, "L3") {
                AutonomyMode::L3
            } else if same_text(mode, "L4") {
                AutonomyMode::L4
            } else if same_text(mode, "L5") {
                AutonomyMode::L5
            } else {
                AutonomyMode::Unknown
            }
        },
        None => AutonomyMode::Unknown,
    }
}

/// The autonomy mode of a project, from the daemon's answer to [`resolve_mode_request`]. It
/// is unknown where the daemon gave no answer, or none that can be read: the indicator
/// shows no value that the daemon did not return.
pub fn resolve_mode(project_id: &str, answer: Option<&[u8]>) -> (r: AutonomyMode)
    ensures
        r == match answer_document(answer_bytes(answer)) {
            Some(document) => document_mode(document),
            None => AutonomyMode::Unknown,
        },
{
    match read_answer(resolve_mode_path(project_id).as_str(), answer) {
        Some(document) => mode_in(&document),
        None => AutonomyMode::Unknown,
    }
}

/// Why the circuit breaker failed.
#[derive(Debug)]
pub enum BreakerError {
    /// The answer is no HTTP response.
    Http(HttpError),
    /// The body of the answer is no JSON; the parser's message says why.
    Json(String),
    /// The daemon refused.
    Refused { status: u16, body: String },
}

impl BreakerError {
    /// What the message says.
    pub open spec fn text(self) -> Seq<char> {
        match self {
            BreakerError::Http(e) => e.text(),
            BreakerError::Json(message) => message@,
            BreakerError::Refused { status, body } => "circuit_breaker HTTP "@ + decimal(
                status as nat,
            ) + " — "@ + body@,
        }
    }

    /// The message of the error.
    pub fn message(&self) -> (r: String)
        ensures
            r@ == self.text(),
            *self matches BreakerError::Http(e) ==> r@ == e.text(),
            *self matches BreakerError::Json(message) ==> r@ == message@,
            *self matches BreakerError::Refused { status, body } ==> r@ == "circuit_breaker HTTP "@
                + decimal(status as nat) + " — "@ + body@,
    {
        match self {
            BreakerError::Http(e) => e.message(),
            BreakerError::Json(message) => message.clone(),
            BreakerError::Refused { status, body } => {
                let mut out = "circuit_breaker HTTP ".to_owned();
                push_decimal(&mut out, *status as usize);
                out.append(" — ");
                out.append(body.as_str());
                out
            },
        }
    }
}

/// The fields that the circuit breaker posts.
pub open spec fn breaker_fields(project_id: Seq<char>, reason: Seq<char>) -> Seq<
    (Seq<char>, Seq<char>),
> {
    seq![
        ("project_id"@, project_id),
        ("actor"@, "sdi-desktop"@),
        ("reason"@, reason),
    ]
}

/// The body that the circuit breaker posts.
pub open spec fn breaker_body(project_id: Seq<char>, reason: Seq<char>) -> Seq<char> {
    object_document(breaker_fields(project_id, reason))
}

/// The request that demotes every policy of a project. Its body is the JSON object of the
/// project, the actor and the reason, and reads back as that object.
pub fn circuit_breaker_request(project_id: &str, reason: &str) -> (r: Result<String, BreakerError>)
    ensures
        r is Ok,
        r->Ok_0@ == post_text(
            "/autonomy_policies/circuit_breaker"@,
            breaker_body(project_id@, reason@),
        ),
        json_document(breaker_body(project_id@, reason@)) is Ok,
        holds_exactly(
            json_document(breaker_body(project_id@, reason@))->Ok_0,
            breaker_fields(project_id@, reason@),
        ),
        json_document(breaker_body(project_id@, reason@)) matches Ok(document) && {
            &&& document.field("project_id"@) == Some(JsonTree::Text(project_id@))
            &&& document.field("actor"@) == Some(JsonTree::Text("sdi-desktop"@))
            &&& document.field("reason"@) == Some(JsonTree::Text(reason@))
            &&& document matches JsonTree::Object(fields)
            &&& fields.len() == 3
        },
{
    let mut fields: Vec<(String, String)> = Vec::new();
    fields.push(("project_id".to_owned(), project_id.to_owned()));
    fields.push(("actor".to_owned(), "sdi-desktop".to_owned()));
    fields.push(("reason".to_owned(), reason.to_owned()));
    proof {
        reveal_strlit("project_id");
        reveal_strlit("actor");
        reveal_strlit("reason");
        assert(text_pairs(fields@) =~= breaker_fields(project_id@, reason@));
        let pairs = breaker_fields(project_id@, reason@);
        assert(pairs[0].0.len() == 10 && pairs[1].0.len() == 5 && pairs[2].0.len() == 6);
        assert(distinct_keys(pairs));
        assert(pairs[0] == ("project_id"@, project_id@));
        assert(pairs[1] == ("actor"@, "sdi-desktop"@));
        assert(pairs[2] == ("reason"@, reason@));
    }
    match object_text(fields) {
        Ok(body) => Ok(post_request("/autonomy_policies/circuit_breaker", body.as_str())),
        Err(e) => Err(BreakerError::Json(e)),
    }
}

/// The number of demoted policies that a document reports; 0 where it reports none.
pub open spec fn demoted_count(document: JsonTree) -> usize {
    match document.field("demoted"@) {
        Some(v) => match v.whole() {
            Some(n) => n as usize,
            None => 0,
        },
        None => 0,
    }
}

/// The number of demoted policies that a document reports.
pub fn demoted_in(document: &Json) -> (r: usize)
    ensures
        r == demoted_count(document@),
{
    match document.get("demoted") {
        Some(v) => match v.as_u64() {
            Some(n) => n as usize,
            None => 0,
        },
        None => 0,
    }
}

/// The outcome of the circuit breaker, from a response and what the parser made of its body.
/// The body must be JSON, whatever the status code says; a status code from 400 on is a
/// refusal.
pub fn breaker_outcome(resp: HttpResp, document: Result<Json, String>) -> (r: Result<
    usize,
    BreakerError,
>)
    ensures
        match document {
            Err(message) => r matches Err(BreakerError::Json(x)) && x@ == message@,
            Ok(document) => if resp.status >= 400 {
                r matches Err(BreakerError::Refused { status, body }) && status == resp.status
                    && body@ == resp.body@
            } else {
                r matches Ok(n) && n == demoted_count(document@)
            },
        },
{
    let document = match document {
        Ok(document) => document,
        Err(message) => {
            return Err(BreakerError::Json(message));
        },
    };
    if resp.status >= 400 {
        return Err(BreakerError::Refused { status: resp.status, body: resp.body });
    }
    Ok(demoted_in(&document))
}

/// The number of policies that the circuit breaker demoted, from the daemon's answer to
/// [`circuit_breaker_request`].
pub fn circuit_breaker(raw: &[u8]) -> (r: Result<usize, BreakerError>)
    ensures
        match http_response(raw@) {
            Err(e) => r matches Err(BreakerError::Http(x)) && x == e,
            Ok((code, body)) => match json_document(body) {
                Err(message) => r matches Err(BreakerError::Json(x)) && x@ == message,
                Ok(document) => if code >= 400 {
                    r matches Err(BreakerError::Refused { status, body: x }) && status == code && x@
                        == body
                } else {
                    r matches Ok(n) && n == demoted_count(document)
                },
            },
        },
{
    match parse_http(raw) {
        Ok(resp) => {
            let document = parse_json(resp.body.as_str());
            breaker_outcome(resp, document)
        },
        Err(e) => Err(BreakerError::Http(e)),
    }
}

/// Different modes have different labels.
pub proof fn law_labels_distinct(a: AutonomyMode, b: AutonomyMode)
    requires
        a.text() == b.text(),
    ensures
        a == b,
{
    reveal_strlit("L3");
    reveal_strlit("L4");
    reveal_strlit("L5");
    reveal_strlit("—");
    assert("L3"@[1] == '3' && "L4"@[1] == '4' && "L5"@[1] == '5');
    assert("—"@.len() == 1);
}

/// The labels are the names of the protocol: a known mode is the one that its label names,
/// and the label of the unknown mode names none.
pub proof fn law_labels_name_modes(mode: AutonomyMode)
    ensures
        named_mode(Some(mode.text())) == mode,
{
    reveal_strlit("L3");
    reveal_strlit("L4");
    reveal_strlit("L5");
    reveal_strlit("—");
    assert("L3"@[1] == '3' && "L4"@[1] == '4' && "L5"@[1] == '5');
    assert("—"@.len() == 1);
}

/// The indicator shows no mode that the daemon did not return: a known mode is the one that
/// the policy of the document names.
pub proof fn law_shown_mode_was_returned(document: JsonTree)
    requires
        document_mode(document) != AutonomyMode::Unknown,
    ensures
        document.field("policy"@) matches Some(policy) && policy.text_field("mode"@) == Some(
            document_mode(document).text(),
        ),
{
}

/// Where no policy has been set, the daemon answers with a policy that is null, and the mode
/// is unknown.
pub proof fn law_null_policy_is_unknown(document: JsonTree)
    requires
        document.field("policy"@) == Some(JsonTree::Null),
    ensures
        document_mode(document) == AutonomyMode::Unknown,
{
}

/// An empty list of projects is an answer like any other: there is no first project in it.
pub proof fn law_empty_list_has_no_first(document: JsonTree)
    requires
        document.first_items() matches Some(items) && items.len() == 0,
    ensures
        first_listed_id(document) is None,
{
}

/// What a hexadecimal digit is worth.
pub open spec fn hex_value(c: char) -> nat {
    if c as u32 <= 57 {
        (c as u32 - 48) as nat
    } else {
        (c as u32 - 55) as nat
    }
}

/// The bytes that a percent-encoded text stands for.
pub open spec fn decoded(s: Seq<char>) -> Seq<u8>
    decreases s.len(),
{
    if s.len() == 0 {
        seq![]
    } else if s[0] == '%' && s.len() >= 3 {
        seq![(hex_value(s[1]) * 16 + hex_value(s[2])) as u8] + decoded(s.skip(3))
    } else {
        seq![s[0] as u8] + decoded(s.skip(1))
    }
}

/// The first byte is encoded first.
proof fn lemma_encoded_first(bytes: Seq<u8>)
    requires
        bytes.len() > 0,
    ensures
        encoded(bytes) == encoded_byte(bytes[0]) + encoded(bytes.drop_first()),
    decreases bytes.len(),
{
    if bytes.len() == 1 {
        assert(bytes.drop_last() =~= seq![]);
        assert(bytes.drop_first() =~= seq![]);
        assert(encoded(bytes) =~= encoded_byte(bytes[0]) + encoded(bytes.drop_first()));
    } else {
        let front = bytes.drop_last();
        lemma_encoded_first(front);
        assert(front.drop_first() =~= bytes.drop_first().drop_last());
        assert(bytes.drop_first().last() == bytes.last());
        assert(encoded(bytes) =~= encoded_byte(bytes[0]) + encoded(bytes.drop_first()));
    }
}

/// Percent-encoding loses nothing: the encoded text stands for the bytes that were encoded.
pub proof fn law_encoding_decodes(bytes: Seq<u8>)
    ensures
        decoded(encoded(bytes)) == bytes,
    decreases bytes.len(),
{
    if bytes.len() > 0 {
        let b = bytes[0];
        let rest = bytes.drop_first();
        let s = encoded(bytes);
        lemma_encoded_first(bytes);
        law_encoding_decodes(rest);
        if unreserved(b) {
            assert(s[0] == b as char);
            assert(s.skip(1) =~= encoded(rest));
        } else {
            let high = (b / 16) as nat;
            let low = (b % 16) as nat;
            assert(s[0] == '%' && s[1] == hex_digit(high) && s[2] == hex_digit(low));
            assert(s.skip(3) =~= encoded(rest));
            assert(hex_value(hex_digit(high)) == high);
            assert(hex_value(hex_digit(low)) == low);
            assert(high * 16 + low == b);
        }
        assert(decoded(s) =~= seq![b] + rest);
        assert(seq![b] + rest =~= bytes);
    } else {
        assert(decoded(encoded(bytes)) =~= bytes);
    }
}

/// Different project ids are asked for under different paths.
pub proof fn law_resolve_path_injective(a: Seq<char>, b: Seq<char>)
    requires
        resolve_path(a) == resolve_path(b),
    ensures
        a == b,
{
    let prefix = "/autonomy_policies/resolve?project_id="@;
    let x = encoded(encode_utf8(a));
    let y = encoded(encode_utf8(b));
    assert(x =~= resolve_path(a).skip(prefix.len() as int));
    assert(y =~= resolve_path(b).skip(prefix.len() as int));
    law_encoding_decodes(encode_utf8(a));
    law_encoding_decodes(encode_utf8(b));
    encode_utf8_decode_utf8(a);
    encode_utf8_decode_utf8(b);
}

/// An upper-case hexadecimal digit.
pub open spec fn upper_hex(c: char) -> bool {
    '0' <= c <= '9' || 'A' <= c <= 'F'
}

/// At the place `i` of a text stands an escape: a percent sign and two upper-case hexadecimal
/// digits, for a byte that is not unreserved.
pub open spec fn escape_at(s: Seq<char>, i: int) -> bool {
    &&& i + 2 < s.len()
    &&& upper_hex(s[i + 1])
    &&& upper_hex(s[i + 2])
    &&& hex_value(s[i + 1]) * 16 + hex_value(s[i + 2]) <= u8::MAX
    &&& !unreserved((hex_value(s[i + 1]) * 16 + hex_value(s[i + 2])) as u8)
}

/// A hexadecimal digit is upper-case and is worth what it was written for.
proof fn lemma_hex_digit(d: nat)
    requires
        d < 16,
    ensures
        upper_hex(hex_digit(d)),
        hex_value(hex_digit(d)) == d,
{
}

/// A percent-encoded text holds unreserved characters and escapes alone: each percent sign is
/// followed by two upper-case hexadecimal digits, and no unreserved byte is escaped.
pub proof fn law_encoding_alphabet(bytes: Seq<u8>)
    ensures
        forall|i: int|
            0 <= i < encoded(bytes).len() ==> (#[trigger] encoded(bytes)[i] == '%'
                || unreserved_char(encoded(bytes)[i])),
        forall|i: int|
            0 <= i < encoded(bytes).len() && #[trigger] encoded(bytes)[i] == '%' ==> escape_at(
                encoded(bytes),
                i,
            ),
    decreases bytes.len(),
{
    if bytes.len() > 0 {
        let s = encoded(bytes);
        let b = bytes.last();
        let front = encoded(bytes.drop_last());
        let last = encoded_byte(b);
        let n = front.len() as int;
        law_encoding_alphabet(bytes.drop_last());
        if !unreserved(b) {
            let high = (b / 16) as nat;
            let low = (b % 16) as nat;
            lemma_hex_digit(high);
            lemma_hex_digit(low);
            assert(s[n + 1] == hex_digit(high) && s[n + 2] == hex_digit(low));
            assert(high * 16 + low == b);
            assert(escape_at(s, n));
        }
        assert forall|i: int| 0 <= i < s.len() implies (#[trigger] s[i] == '%' || unreserved_char(
            s[i],
        )) by {
            if i < n {
                assert(s[i] == front[i]);
            } else {
                assert(s[i] == last[i - n]);
            }
        }
        assert forall|i: int| 0 <= i < s.len() && #[trigger] s[i] == '%' implies escape_at(s, i) by {
            if i < n {
                assert(s[i] == front[i]);
                assert(escape_at(front, i));
                assert(s[i + 1] == front[i + 1] && s[i + 2] == front[i + 2]);
            } else {
                assert(s[i] == last[i - n]);
            }
        }
    }
}

/// An unreserved text is encoded as itself.
pub proof fn law_unreserved_unchanged(s: Seq<char>)
    requires
        forall|i: int|
            0 <= i < s.len() ==> unreserved_char(#[trigger] s[i]),
    ensures
        encoded(encode_utf8(s)) == s,
{
    assert forall|i: int| 0 <= i < s.len() implies '\0' <= #[trigger] s[i] <= '\u{7f}' by {
        assert(unreserved_char(s[i]));
    }
    is_ascii_chars_encode_utf8(s);
    let bytes = encode_utf8(s);
    assert(bytes =~= Seq::new(s.len(), |i: int| s[i] as u8));
    lemma_unreserved_bytes(bytes);
    assert(encoded(bytes) =~= s);
}

proof fn lemma_unreserved_bytes(bytes: Seq<u8>)
    requires
        forall|i: int| 0 <= i < bytes.len() ==> unreserved(#[trigger] bytes[i]),
    ensures
        encoded(bytes) == Seq::new(bytes.len(), |i: int| bytes[i] as char),
    decreases bytes.len(),
{
    if bytes.len() > 0 {
        lemma_unreserved_bytes(bytes.drop_last());
    }
    assert(encoded(bytes) =~= Seq::new(bytes.len(), |i: int| bytes[i] as char));
}

/// Whatever the project id holds, the request for its mode has it in its path, and the path
/// is the second word of the first line.
pub proof fn law_resolve_request_line(project_id: Seq<char>)
    ensures
        first_line(get_text(resolve_path(project_id))) == Some(
            "GET "@ + resolve_path(project_id) + " HTTP/1.1"@,
        ),
        second_word("GET "@ + resolve_path(project_id) + " HTTP/1.1"@) == Some(
            resolve_path(project_id),
        ),
{
    reveal_strlit("/autonomy_policies/resolve?project_id=");
    let prefix = "/autonomy_policies/resolve?project_id="@;
    let tail = encoded(encode_utf8(project_id));
    let path = resolve_path(project_id);
    law_encoding_alphabet(encode_utf8(project_id));
    assert forall|i: int| 0 <= i < path.len() implies !white_space(#[trigger] path[i]) by {
        if i < prefix.len() {
            assert(path[i] == prefix[i]);
            assert(prefix.len() == 38);
        } else {
            assert(path[i] == tail[i - prefix.len()]);
        }
    }
    law_get_path(path);
}

/// For each known mode: where the policy of a document has a text `mode` that is the label of
/// that mode, the document resolves to that mode, whatever else the policy or the document
/// holds.
pub proof fn law_named_mode_is_resolved(document: JsonTree, policy: JsonTree)
    requires
        document.field("policy"@) == Some(policy),
    ensures
        policy.text_field("mode"@) == Some("L3"@) ==> document_mode(document) == AutonomyMode::L3,
        policy.text_field("mode"@) == Some("L4"@) ==> document_mode(document) == AutonomyMode::L4,
        policy.text_field("mode"@) == Some("L5"@) ==> document_mode(document) == AutonomyMode::L5,
{
    reveal_strlit("L3");
    reveal_strlit("L4");
    reveal_strlit("L5");
    assert("L3"@[1] == '3' && "L4"@[1] == '4' && "L5"@[1] == '5');
}

/// Where a document has no policy, or its policy has no text `mode`, or one that is none of
/// the three labels, the mode is unknown.
pub proof fn law_other_modes_are_unknown(document: JsonTree)
    requires
        document.field("policy"@) matches Some(policy) ==> (policy.text_field(
            "mode"@,
        ) matches Some(mode) ==> mode != "L3"@ && mode != "L4"@ && mode != "L5"@),
    ensures
        document_mode(document) == AutonomyMode::Unknown,
{
}

/// The mode depends on the text `mode` of the policy alone: two documents whose policies agree
/// on it resolve alike.
pub proof fn law_mode_depends_on_mode_alone(a: JsonTree, b: JsonTree, p: JsonTree, q: JsonTree)
    requires
        a.field("policy"@) == Some(p),
        b.field("policy"@) == Some(q),
        p.text_field("mode"@) == q.text_field("mode"@),
    ensures
        document_mode(a) == document_mode(b),
{
}

/// The document of an answer: there is one exactly where there is an answer, it is accepted,
/// and its body is JSON; it is then what the body holds.
pub proof fn law_answer_holds_its_document(raw: Seq<u8>)
    ensures
        answer_document(None) is None,
        accepted_body(raw) is Err ==> answer_document(Some(raw)) is None,
        accepted_body(raw) matches Ok(body) ==> {
            &&& json_document(body) matches Ok(document) ==> answer_document(Some(raw)) == Some(
                document,
            )
            &&& json_document(body) is Err ==> answer_document(Some(raw)) is None
        },
{
}

/// The first project of a list is its first item, however long the list is and whatever else
/// its items hold; an object is read as the list under its first key.
pub proof fn law_first_project_is_the_first_item(
    items: Seq<JsonTree>,
    key: Seq<char>,
    more: Seq<(Seq<char>, JsonTree)>,
)
    requires
        items.len() > 0,
    ensures
        first_listed_id(JsonTree::Array(items)) == items[0].text_field("id"@),
        first_listed_id(JsonTree::Object(seq![(key, JsonTree::Array(items))] + more))
            == items[0].text_field("id"@),
{
    let fields = seq![(key, JsonTree::Array(items))] + more;
    assert(fields[0] == (key, JsonTree::Array(items)));
}

/// A document that is no list, and no object whose first field is one, names no first project;
/// neither does an empty list.
pub proof fn law_no_first_project(document: JsonTree)
    requires
        document matches JsonTree::Array(items) ==> items.len() == 0,
        document matches JsonTree::Object(fields) ==> fields.len() == 0 || (
        fields[0].1 matches JsonTree::Array(items) ==> items.len() == 0),
    ensures
        first_listed_id(document) is None,
{
}

/// The number of demoted policies is the whole number under `demoted`, as far as `usize`
/// reaches; a document without one reports none.
pub proof fn law_demoted_is_counted(document: JsonTree, n: u64)
    requires
        n <= usize::MAX,
    ensures
        document.field("demoted"@) == Some(JsonTree::Number(Some(n))) ==> demoted_count(document) == n,
        document.field("demoted"@) is None ==> demoted_count(document) == 0,
        document.field("demoted"@) matches Some(v) ==> (!(v is Number) ==> demoted_count(document)
            == 0),
        document.field("demoted"@) == Some(JsonTree::Number(None)) ==> demoted_count(document) == 0,
{
}

/// Bytes are encoded one by one: what is encoded of a byte depends on that byte alone.
pub proof fn law_encoding_is_bytewise(a: Seq<u8>, b: Seq<u8>)
    ensures
        encoded(a + b) == encoded(a) + encoded(b),
        encoded(Seq::<u8>::empty()).len() == 0,
    decreases b.len(),
{
    if b.len() == 0 {
        assert(a + b =~= a);
        assert(encoded(a) + encoded(b) =~= encoded(a));
    } else {
        law_encoding_is_bytewise(a, b.drop_last());
        assert((a + b).drop_last() =~= a + b.drop_last());
        assert(encoded(a + b) =~= encoded(a) + encoded(b));
    }
}

/// A letter, a digit, `-`, `_`, `.` and `~` stand for themselves; any other byte becomes a
/// percent sign and its two hexadecimal digits, the higher one first.
pub proof fn law_encoding_of_a_byte(b: u8)
    ensures
        ((65 <= b <= 90) || (97 <= b <= 122) || (48 <= b <= 57) || b == 45 || b == 95 || b == 46 || b
            == 126) ==> encoded(seq![b]) == seq![b as char],
        !((65 <= b <= 90) || (97 <= b <= 122) || (48 <= b <= 57) || b == 45 || b == 95 || b == 46 || b
            == 126) ==> encoded(seq![b]) == seq![
            '%',
            "0123456789ABCDEF"@[b as int / 16],
            "0123456789ABCDEF"@[b as int % 16],
        ],
{
    reveal_strlit("0123456789ABCDEF");
    let bytes = seq![b];
    assert(bytes.drop_last() =~= Seq::<u8>::empty());
    assert(encoded(bytes.drop_last()) =~= Seq::<char>::empty());
    assert(encoded(bytes) =~= encoded_byte(b));
    lemma_hex_table((b / 16) as nat);
    lemma_hex_table((b % 16) as nat);
}

/// The hexadecimal digits, in their order.
proof fn lemma_hex_table(d: nat)
    requires
        d < 16,
    ensures
        hex_digit(d) == "0123456789ABCDEF"@[d as int],
{
    reveal_strlit("0123456789ABCDEF");
    let t = "0123456789ABCDEF"@;
    assert(t[0] == '0' && t[1] == '1' && t[2] == '2' && t[3] == '3' && t[4] == '4' && t[5] == '5'
        && t[6] == '6' && t[7] == '7' && t[8] == '8' && t[9] == '9' && t[10] == 'A' && t[11] == 'B'
        && t[12] == 'C' && t[13] == 'D' && t[14] == 'E' && t[15] == 'F');
}

/// The circuit breaker posts the project, the actor and the reason that it was given, whole,
/// and nothing else.
pub proof fn law_breaker_posts_what_it_was_given(project_id: Seq<char>, reason: Seq<char>)
    ensures
        breaker_fields(project_id, reason).len() == 3,
        breaker_fields(project_id, reason).contains(("project_id"@, project_id)),
        breaker_fields(project_id, reason).contains(("actor"@, "sdi-desktop"@)),
        breaker_fields(project_id, reason).contains(("reason"@, reason)),
{
    let fields = breaker_fields(project_id, reason);
    assert(fields[0] == ("project_id"@, project_id));
    assert(fields[1] == ("actor"@, "sdi-desktop"@));
    assert(fields[2] == ("reason"@, reason));
}

/// A `GET` that is refused says its path and the status code, whatever they are; any other
/// failure says what it is alone.
pub proof fn law_refused_get_names_its_path(path: Seq<char>, code: u16, e: HttpError)
    ensures
        get_error_text(path, HttpError::Status(code)) == "GET "@ + path + " "@ + ("HTTP "@
            + decimal(code as nat)),
        !(e is Status) ==> get_error_text(path, e) == e.text(),
{
}

/// A circuit breaker that is refused says the status code and the whole body; one that failed
/// otherwise says what went wrong, whole.
pub proof fn law_messages_of_breaker_errors(e: HttpError, message: String, status: u16, body: String)
    ensures
        BreakerError::Http(e).text() == e.text(),
        BreakerError::Json(message).text() == message@,
        (BreakerError::Refused { status, body }).text() == "circuit_breaker HTTP "@ + decimal(
            status as nat,
        ) + " — "@ + body@,
{
}

/// The path that resolves a mode ends in the whole encoded id.
pub proof fn law_resolve_path_ends_in_id(project_id: Seq<char>)
    ensures
        resolve_path(project_id) == "/autonomy_policies/resolve?project_id="@ + encoded(
            encode_utf8(project_id),
        ),
{
}

} // verus!
