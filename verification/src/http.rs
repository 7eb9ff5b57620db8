//! HTTP helpers: header validation with the `http` types that `hyper`
//! re-exports, status codes, and the text of the messages a reactor
//! exchanges with the host for HTTP requests and replies.
use vstd::prelude::*;
use vstd::slice::slice_to_vec;
use vstd::utf8::{decode_utf8, encode_utf8, valid_utf8};

use crate::headers::{
    format_header_lines, format_headers, header_pairs, opt_pairs_view, pairs_view, parse_header_pairs,
    split_line,
};
use crate::header_map::{
    header_key, header_map_contents, header_map_insert, header_map_keys_len, header_map_new,
    header_map_of, lemma_header_map_prefix, HEADER_KEY_LIMIT,
};
use crate::text::chars_of;
use crate::socket::PollnetMessage;

verus! {

/// A byte of an HTTP token: `!`, `#` to `'`, `*`, `+`, `-`, `.`, a digit,
/// a letter, `^`, `_`, `` ` ``, `|` or `~`.
pub open spec fn is_token_byte(b: u8) -> bool {
    b == 33 || (35 <= b <= 39) || b == 42 || b == 43 || b == 45 || b == 46 || (48 <= b <= 57)
        || (65 <= b <= 90) || (94 <= b <= 122) || b == 124 || b == 126
}

/// Whether `HeaderName::from_bytes` accepts the UTF-8 bytes of a name:
/// from 1 to 65535 bytes, each of them a token byte.
pub open spec fn header_name_accepted(name: Seq<char>) -> bool {
    &&& 1 <= encode_utf8(name).len() <= 65535
    &&& forall|i: int| 0 <= i < encode_utf8(name).len() ==> is_token_byte(#[trigger] encode_utf8(name)[i])
}

/// A byte that `HeaderValue::from_str` accepts: a tab, or any byte from 32
/// up except 127.
pub open spec fn header_value_byte_ok(b: u8) -> bool {
    (b >= 32 && b != 127) || b == 9
}

/// Whether `HeaderValue::from_str` accepts a value: every one of its UTF-8
/// bytes is accepted.
pub open spec fn header_value_accepted(value: Seq<char>) -> bool {
    forall|i: int|
        0 <= i < encode_utf8(value).len() ==> header_value_byte_ok(#[trigger] encode_utf8(value)[i])
}

/// A header pair that both constructors accept.
pub open spec fn header_accepted(p: (Seq<char>, Seq<char>)) -> bool {
    header_name_accepted(p.0) && header_value_accepted(p.1)
}

/// `hyper::header::HeaderName::from_bytes` on the UTF-8 bytes of `name`:
/// true when it returns a name, which its source does exactly for 1 to
/// 65535 token bytes.
#[verifier::external_body]
pub(crate) fn header_name_is_valid(name: &str) -> (ok: bool)
    ensures
        ok == header_name_accepted(name@),
{
    hyper::header::HeaderName::from_bytes(name.as_bytes()).is_ok()
}

/// `hyper::header::HeaderValue::from_str`: true when it returns a value,
/// which its source does exactly when every byte is a tab or is at least
/// 32 and not 127.
#[verifier::external_body]
pub(crate) fn header_value_is_valid(value: &str) -> (ok: bool)
    ensures
        ok == header_value_accepted(value@),
{
    hyper::header::HeaderValue::from_str(value).is_ok()
}

/// Splits one header line at its first `:`, keeping it only when the name
/// is a valid header name.
pub fn parse_header_line(line: &str) -> (r: Option<(String, String)>)
    ensures
        match crate::headers::split_once(line@, ':') {
            Some(p) => if header_name_accepted(p.0) {
                r matches Some(q) && q.0@ == p.0 && q.1@ == p.1
            } else {
                r is None
            },
            None => r is None,
        },
{
    let cs = chars_of(line);
    assert(cs@.subrange(0, cs@.len() as int) =~= line@);
    match split_line(&cs, 0, cs.len(), ':') {
        Some((k, v)) => {
            if header_name_is_valid(k.as_str()) {
                Some((k, v))
            } else {
                None
            }
        },
        None => None,
    }
}

/// Builds a header map from pairs, inserting them in order with
/// `insert_header`; `None` when the map would come to hold
/// `HEADER_KEY_LIMIT` names or more.
pub fn headers_from_pairs(pairs: &Vec<(String, String)>) -> (r: Option<hyper::HeaderMap>)
    ensures
        match r {
            Some(m) => header_map_contents(m) == header_map_of(pairs_view(pairs@)),
            None => header_map_of(pairs_view(pairs@)).dom().len() >= HEADER_KEY_LIMIT,
        },
{
    let ghost ps = pairs_view(pairs@);
    let mut m = header_map_new();
    assert(header_map_contents(m) =~= header_map_of(ps.take(0)));
    let mut i: usize = 0;
    while i < pairs.len()
        invariant
            i <= pairs@.len(),
            ps == pairs_view(pairs@),
            header_map_contents(m) == header_map_of(ps.take(i as int)),
        decreases pairs@.len() - i,
    {
        proof {
            lemma_header_map_prefix(ps, i as int);
        }
        if header_map_keys_len(&m) >= HEADER_KEY_LIMIT {
            return None;
        }
        let (k, v) = &pairs[i];
        proof {
            assert(ps.take(i + 1).drop_last() =~= ps.take(i as int));
            assert(ps.take(i + 1).last() == (k@, v@));
        }
        let _ = insert_header(&mut m, k.as_str(), v.as_str());
        i = i + 1;
    }
    assert(ps.take(pairs@.len() as int) =~= ps);
    Some(m)
}

/// The header map of a request's header text: each line with a `:` gives
/// a name and a value, pairs that are not valid are skipped, and a later
/// value for a name replaces an earlier one.
pub fn parse_headers(header_str: &str) -> (r: hyper::HeaderMap)
    requires
        header_map_of(header_pairs(header_str@)).dom().len() < HEADER_KEY_LIMIT,
    ensures
        header_map_contents(r) == header_map_of(header_pairs(header_str@)),
{
    match headers_from_pairs(&parse_header_pairs(header_str)) {
        Some(m) => m,
        // Not taken: `requires` keeps the names below the limit.
        None => header_map_new(),
    }
}

/// The status code that `StatusCode::from_bytes` reads from three ASCII
/// digits, the first not `0`; `None` for anything else.
pub open spec fn status_of_bytes(b: Seq<u8>) -> Option<u16> {
    if b.len() == 3 && 49 <= b[0] <= 57 && 48 <= b[1] <= 57 && 48 <= b[2] <= 57 {
        Some(((b[0] - 48) * 100 + (b[1] - 48) * 10 + (b[2] - 48)) as u16)
    } else {
        None
    }
}

/// `hyper::StatusCode::from_bytes`, taken as its number. Its source
/// accepts exactly three ASCII digits whose first is not `0`.
#[verifier::external_body]
pub(crate) fn status_from_bytes(b: &[u8]) -> (r: Option<u16>)
    ensures
        r == status_of_bytes(b@),
{
    match hyper::StatusCode::from_bytes(b) {
        Ok(code) => Some(code.as_u16()),
        Err(_) => None,
    }
}

/// The status code 500, Internal Server Error.
pub open spec fn internal_server_error() -> u16 {
    500
}

/// The status of a dynamic reply, read from the first message the host
/// answered with: three digits as text or as bytes; 500 otherwise.
pub open spec fn reply_status(msg: Option<PollnetMessage>) -> u16 {
    let parsed = match msg {
        Some(PollnetMessage::Text(txt)) => status_of_bytes(encode_utf8(txt@)),
        Some(PollnetMessage::Binary(bin)) => status_of_bytes(bin@),
        _ => None,
    };
    match parsed {
        Some(code) => code,
        None => internal_server_error(),
    }
}

/// Reads the status of a dynamic reply from the host's message.
pub fn parse_status(msg: Option<PollnetMessage>) -> (code: u16)
    ensures
        code == reply_status(msg),
{
    let parsed = match msg {
        Some(PollnetMessage::Text(txt)) => status_from_bytes(txt.as_str().as_bytes()),
        Some(PollnetMessage::Binary(bin)) => status_from_bytes(bin.as_slice()),
        _ => None,
    };
    match parsed {
        Some(code) => code,
        None => 500,
    }
}

/// The body of a dynamic reply: the bytes of the host's message, or none.
pub open spec fn reply_body(msg: Option<PollnetMessage>) -> Seq<u8> {
    match msg {
        Some(PollnetMessage::Binary(bin)) => bin@,
        Some(PollnetMessage::Text(txt)) => encode_utf8(txt@),
        _ => Seq::empty(),
    }
}

/// Reads the body of a dynamic reply from the host's message.
pub fn parse_body(msg: Option<PollnetMessage>) -> (body: Vec<u8>)
    ensures
        body@ == reply_body(msg),
{
    match msg {
        Some(PollnetMessage::Binary(bin)) => bin,
        Some(PollnetMessage::Text(txt)) => slice_to_vec(txt.as_str().as_bytes()),
        _ => Vec::new(),
    }
}

/// What `String::from_utf8_lossy` makes of a byte sequence: its text, with
/// each invalid sequence replaced by U+FFFD.
pub uninterp spec fn lossy_utf8(b: Seq<u8>) -> Seq<char>;

/// `String::from_utf8_lossy`, owned: a function of the bytes alone. Its
/// documentation says that valid UTF-8 comes back unchanged; the contract
/// does not spell out where the replacement characters go in other input.
#[verifier::external_body]
pub(crate) fn utf8_lossy(b: &[u8]) -> (s: String)
    ensures
        s@ == lossy_utf8(b@),
        valid_utf8(b@) ==> s@ == decode_utf8(b@),
{
    String::from_utf8_lossy(b).into_owned()
}

/// The header text of a dynamic reply: the host's message as text.
pub open spec fn reply_header_text(msg: Option<PollnetMessage>) -> Seq<char> {
    match msg {
        Some(PollnetMessage::Binary(bin)) => lossy_utf8(bin@),
        Some(PollnetMessage::Text(txt)) => txt@,
        _ => Seq::empty(),
    }
}

/// Reads the header pairs of a dynamic reply from the host's message.
pub fn parse_headers_msg(msg: Option<PollnetMessage>) -> (pairs: Vec<(String, String)>)
    ensures
        pairs_view(pairs@) == header_pairs(reply_header_text(msg)),
{
    let headerstr = match msg {
        Some(PollnetMessage::Binary(bin)) => utf8_lossy(bin.as_slice()),
        Some(PollnetMessage::Text(txt)) => txt,
        _ => String::new(),
    };
    parse_header_pairs(headerstr.as_str())
}

/// Adds a header to a map when its name and value are valid, replacing
/// any values the name had; returns `None` and leaves the map alone
/// otherwise.
pub fn insert_header(headers: &mut hyper::HeaderMap, k: &str, v: &str) -> (r: Option<()>)
    requires
        header_map_contents(*old(headers)).dom().len() < HEADER_KEY_LIMIT,
    ensures
        header_accepted((k@, v@)) ==> r is Some && header_map_contents(*final(headers))
            == header_map_contents(*old(headers)).insert(header_key(k@), seq![encode_utf8(v@)]),
        !header_accepted((k@, v@)) ==> r is None && header_map_contents(*final(headers))
            == header_map_contents(*old(headers)),
{
    if !header_name_is_valid(k) {
        return None;
    }
    if !header_value_is_valid(v) {
        return None;
    }
    header_map_insert(headers, k, v);
    Some(())
}

/// A reply that a dynamic HTTP server sends: status, headers, body.
pub struct DynamicReply {
    pub status: u16,
    pub headers: hyper::HeaderMap,
    pub body: Vec<u8>,
}

/// Builds a dynamic reply from the three messages the host answered with:
/// status, headers, body. Header pairs that are not valid are left out;
/// `None` when the headers would come to `HEADER_KEY_LIMIT` names or more.
pub fn dynamic_reply(
    status_msg: Option<PollnetMessage>,
    headers_msg: Option<PollnetMessage>,
    body_msg: Option<PollnetMessage>,
) -> (r: Option<DynamicReply>)
    ensures
        match r {
            Some(reply) => {
                &&& reply.status == reply_status(status_msg)
                &&& header_map_contents(reply.headers) == header_map_of(
                    header_pairs(reply_header_text(headers_msg)),
                )
                &&& reply.body@ == reply_body(body_msg)
            },
            None => header_map_of(header_pairs(reply_header_text(headers_msg))).dom().len()
                >= HEADER_KEY_LIMIT,
        },
{
    let status = parse_status(status_msg);
    let hmap = parse_headers_msg(headers_msg);
    let body = parse_body(body_msg);
    match headers_from_pairs(&hmap) {
        Some(headers) => Some(DynamicReply { status, headers, body }),
        None => None,
    }
}

/// The three messages that tell the host about a request to a dynamic
/// server: `METHOD uri` as text, the header lines as text, the body.
pub fn request_info_messages(
    method: &str,
    uri: &str,
    headers: &Vec<(String, Option<String>)>,
    body: Vec<u8>,
) -> (msgs: Vec<PollnetMessage>)
    ensures
        msgs@.len() == 3,
        msgs@[0] matches PollnetMessage::Text(t) && t@ == method@ + seq![' '] + uri@,
        msgs@[1] matches PollnetMessage::Text(t) && t@ == format_header_lines(opt_pairs_view(headers@)),
        msgs@[2] matches PollnetMessage::Binary(b) && b@ == body@,
{
    let mut method_path = String::new();
    crate::text::push_str(&mut method_path, method);
    crate::text::push_char(&mut method_path, ' ');
    crate::text::push_str(&mut method_path, uri);
    let req_headers = format_headers(headers);
    let mut msgs: Vec<PollnetMessage> = Vec::new();
    msgs.push(PollnetMessage::Text(method_path));
    msgs.push(PollnetMessage::Text(req_headers));
    msgs.push(PollnetMessage::Binary(body));
    msgs
}

/// The text `StatusCode`'s `Display` writes for a code: the number, a
/// space, and the canonical reason (or `<unknown status code>`).
pub uninterp spec fn status_code_text(code: u16) -> Seq<char>;

/// The three decimal digits of a code from 100 to 999.
pub open spec fn decimal_code(code: u16) -> Seq<char> {
    seq![(48 + code / 100) as char, (48 + (code / 10) % 10) as char, (48 + code % 10) as char]
}

/// `hyper::StatusCode::from_u16(code)` written with `to_string`. A code
/// from 100 to 999 is always accepted, so `requires` keeps to those. The
/// source writes `"{} {}"` of the number and the reason, so the text starts
/// with the three digits and a space; the contract does not list the
/// reason phrase of each code.
#[verifier::external_body]
pub(crate) fn status_text(code: u16) -> (s: String)
    requires
        100 <= code <= 999,
    ensures
        s@ == status_code_text(code),
        s@.len() >= 4 && s@.subrange(0, 3) == decimal_code(code) && s@[3] == ' ',
{
    match hyper::StatusCode::from_u16(code) {
        Ok(status) => status.to_string(),
        Err(_) => String::new(),
    }
}

/// The messages a simple HTTP request sends before its body: nothing when
/// only the body is wanted, else the status line and the header lines,
/// both as bytes.
pub fn http_head_messages(status: u16, headers: &Vec<(String, Option<String>)>, ret_body_only: bool) -> (msgs:
    Vec<PollnetMessage>)
    requires
        100 <= status <= 999,
    ensures
        ret_body_only ==> msgs@.len() == 0,
        !ret_body_only ==> {
            &&& msgs@.len() == 2
            &&& msgs@[0] matches PollnetMessage::Binary(b) && b@ == encode_utf8(status_code_text(status))
            &&& msgs@[1] matches PollnetMessage::Binary(b) && b@ == encode_utf8(
                format_header_lines(opt_pairs_view(headers@)),
            )
        },
{
    let mut msgs: Vec<PollnetMessage> = Vec::new();
    if !ret_body_only {
        let statuscode = status_text(status);
        msgs.push(PollnetMessage::Binary(slice_to_vec(statuscode.as_str().as_bytes())));
        let text = format_headers(headers);
        msgs.push(PollnetMessage::Binary(slice_to_vec(text.as_str().as_bytes())));
    }
    msgs
}

/// The messages a simple HTTP request ends with: the body and a
/// disconnect, or the error that reading the body (or sending the request)
/// gave.
pub fn http_body_messages(body: Result<Vec<u8>, String>) -> (msgs: Vec<PollnetMessage>)
    ensures
        match body {
            Ok(b) => msgs@.len() == 2 && (msgs@[0] matches PollnetMessage::Binary(x) && x@ == b@)
                && msgs@[1] is Disconnect,
            Err(e) => msgs@.len() == 1 && (msgs@[0] matches PollnetMessage::Error(x) && x@ == e@),
        },
{
    let mut msgs: Vec<PollnetMessage> = Vec::new();
    match body {
        Ok(b) => {
            msgs.push(PollnetMessage::Binary(b));
            msgs.push(PollnetMessage::Disconnect);
        },
        Err(e) => {
            msgs.push(PollnetMessage::Error(e));
        },
    }
    msgs
}

} // verus!
