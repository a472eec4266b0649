//! The UI-sync channel between CLI invocations and the running app: where
//! its endpoint lives, how the listener answers a request line, how the
//! sender reads the answer, and how the Windows port file is read.
//!
//! A request line is one JSON envelope `{"version":…,"event":…}`; the
//! listener answers one JSON line `{"ok":true}` or `{"ok":false,"error":…}`.

use vstd::prelude::*;

use crate::paths::{join_path, path_joined, Platform};
use crate::text::{
    chars_eq, chars_of, decimal, digit_char, is_white_space, trim, trim_chars, trim_end, trim_start,
};

verus! {

// ---------------------------------------------------------------------------
// The endpoint
// ---------------------------------------------------------------------------

/// The endpoint's file name: a Unix domain socket, or on Windows a file that
/// holds the TCP port of the listener.
pub open spec fn endpoint_name(platform: Platform) -> Seq<char> {
    if platform == Platform::Windows {
        "ui-sync.port"@
    } else {
        "ui-sync.sock"@
    }
}

/// The endpoint file name on `platform`.
pub fn endpoint_filename(platform: Platform) -> (r: &'static str)
    ensures
        r@ == endpoint_name(platform),
{
    if platform == Platform::Windows {
        "ui-sync.port"
    } else {
        "ui-sync.sock"
    }
}

/// The endpoint path inside the app's run directory.
pub fn socket_path(run_dir: &str, platform: Platform) -> (r: String)
    ensures
        r@ == path_joined(run_dir@, endpoint_name(platform), platform),
{
    proof {
        reveal_strlit("ui-sync.port");
        reveal_strlit("ui-sync.sock");
    }
    join_path(run_dir, endpoint_filename(platform), platform)
}

// ---------------------------------------------------------------------------
// The listener's answer
// ---------------------------------------------------------------------------

/// The envelope version this app speaks.
pub const UI_MUTATION_ENVELOPE_VERSION: u32 = 1;

/// A decoded request: the protocol version and the UI mutation event.
pub struct UiMutationEnvelope<E> {
    pub version: u32,
    pub event: E,
}

/// The listener's answer to one request.
#[derive(Clone, Copy, PartialEq, Eq, Structural)]
pub enum SyncReply {
    /// The event was accepted and published.
    Accepted,
    /// The envelope carries another protocol version.
    UnsupportedVersion,
    /// The request line was empty or blank.
    EmptyRequest,
    /// The request line is not a valid envelope.
    InvalidPayload,
    /// Reading the request failed.
    ReadFailed,
}

/// The JSON text of an answer (sent followed by a line feed).
pub open spec fn reply_json(r: SyncReply) -> Seq<char> {
    match r {
        SyncReply::Accepted => "{\"ok\":true}"@,
        SyncReply::UnsupportedVersion => "{\"ok\":false,\"error\":\"unsupported version\"}"@,
        SyncReply::EmptyRequest => "{\"ok\":false,\"error\":\"empty request\"}"@,
        SyncReply::InvalidPayload => "{\"ok\":false,\"error\":\"invalid payload\"}"@,
        SyncReply::ReadFailed => "{\"ok\":false,\"error\":\"read failed\"}"@,
    }
}

impl SyncReply {
    /// The JSON text of the answer.
    pub fn json(&self) -> (r: &'static str)
        ensures
            r@ == reply_json(*self),
    {
        match self {
            SyncReply::Accepted => "{\"ok\":true}",
            SyncReply::UnsupportedVersion => "{\"ok\":false,\"error\":\"unsupported version\"}",
            SyncReply::EmptyRequest => "{\"ok\":false,\"error\":\"empty request\"}",
            SyncReply::InvalidPayload => "{\"ok\":false,\"error\":\"invalid payload\"}",
            SyncReply::ReadFailed => "{\"ok\":false,\"error\":\"read failed\"}",
        }
    }
}

/// The answer to a request line, given the envelope decoded from it (`None`
/// when the line is no valid envelope): a current-version envelope is
/// accepted and its event is handed back for publishing; another version
/// is refused; an undecodable line is an empty request when blank and an
/// invalid payload otherwise.
pub fn sync_response_for_line<E>(parsed: Option<UiMutationEnvelope<E>>, line: &str) -> (r: (
    SyncReply,
    Option<E>,
))
    ensures
        match parsed {
            Some(env) => if env.version == UI_MUTATION_ENVELOPE_VERSION {
                r.0 == SyncReply::Accepted && r.1 == Some(env.event)
            } else {
                r.0 == SyncReply::UnsupportedVersion && r.1 is None
            },
            None => r.1 is None && r.0 == if trim(line@).len() == 0 {
                SyncReply::EmptyRequest
            } else {
                SyncReply::InvalidPayload
            },
        },
{
    match parsed {
        Some(env) => {
            if env.version == UI_MUTATION_ENVELOPE_VERSION {
                (SyncReply::Accepted, Some(env.event))
            } else {
                (SyncReply::UnsupportedVersion, None)
            }
        },
        None => {
            let cs = chars_of(line);
            let t = trim_chars(&cs);
            if t.len() == 0 {
                (SyncReply::EmptyRequest, None)
            } else {
                (SyncReply::InvalidPayload, None)
            }
        },
    }
}

/// How reading one request line ended.
pub enum RequestRead<E> {
    /// The connection closed before any byte.
    Closed,
    /// A line was read; the envelope decoded from it, if it is one.
    Line { line: String, parsed: Option<UiMutationEnvelope<E>> },
    /// The read failed.
    Failed,
}

/// The listener's answer to one connection, and the event to publish.
pub fn listener_reply<E>(read: RequestRead<E>) -> (r: (SyncReply, Option<E>))
    ensures
        match read {
            RequestRead::Closed => r.0 == SyncReply::EmptyRequest && r.1 is None,
            RequestRead::Failed => r.0 == SyncReply::ReadFailed && r.1 is None,
            RequestRead::Line { line, parsed } => match parsed {
                Some(env) => if env.version == UI_MUTATION_ENVELOPE_VERSION {
                    r.0 == SyncReply::Accepted && r.1 == Some(env.event)
                } else {
                    r.0 == SyncReply::UnsupportedVersion && r.1 is None
                },
                None => r.1 is None && r.0 == if trim(line@).len() == 0 {
                    SyncReply::EmptyRequest
                } else {
                    SyncReply::InvalidPayload
                },
            },
        },
{
    match read {
        RequestRead::Closed => (SyncReply::EmptyRequest, None),
        RequestRead::Failed => (SyncReply::ReadFailed, None),
        RequestRead::Line { line, parsed } => sync_response_for_line(parsed, line.as_str()),
    }
}

// ---------------------------------------------------------------------------
// The sender's reading of the answer
// ---------------------------------------------------------------------------

/// A JSON value as the library holds it; a number keeps only its kind.
pub enum JsonValue {
    Null,
    Bool(bool),
    Number,
    Str(String),
    Array(Vec<JsonValue>),
    /// The members of an object, in the order `serde_json` yields them.
    Object(Vec<(String, JsonValue)>),
}

/// The value that `serde_json::from_str::<serde_json::Value>` makes of
/// `text`, or `None` when the text is not valid JSON.
pub uninterp spec fn json_document(text: Seq<char>) -> Option<JsonValue>;

/// Makes `serde_json::Value` known to the verifier as an opaque type; it
/// only passes from the parser to the conversion below.
#[verifier::external_type_specification]
#[verifier::external_body]
pub struct ExJsonValue(serde_json::Value);

/// Moves a `serde_json::Value` into a [`JsonValue`], variant for variant
/// (objects member for member, in the crate's iteration order); a number
/// keeps only its kind. It is the conversion step of `parse_json` and claims
/// nothing by itself.
#[verifier::external_body]
fn json_value_model(v: serde_json::Value) -> JsonValue {
    match v {
        serde_json::Value::Null => JsonValue::Null,
        serde_json::Value::Bool(b) => JsonValue::Bool(b),
        serde_json::Value::Number(_) => JsonValue::Number,
        serde_json::Value::String(s) => JsonValue::Str(s),
        serde_json::Value::Array(a) => JsonValue::Array(a.into_iter().map(json_value_model).collect()),
        serde_json::Value::Object(m) => JsonValue::Object(
            m.into_iter().map(|(k, x)| (k, json_value_model(x))).collect(),
        ),
    }
}

/// Parses `text` with `serde_json::from_str::<serde_json::Value>`. Claims that
/// the result is the value the crate makes of the text (`None` on an error),
/// named `json_document`; nothing is stated of what that value is.
#[verifier::external_body]
fn parse_json(text: &str) -> (r: Option<JsonValue>)
    ensures
        r == json_document(text@),
{
    match serde_json::from_str::<serde_json::Value>(text) {
        Ok(v) => Some(json_value_model(v)),
        Err(_) => None,
    }
}

/// The value of the first member named `key`.
pub open spec fn member_get(members: Seq<(String, JsonValue)>, key: Seq<char>) -> Option<JsonValue>
    decreases members.len(),
{
    if members.len() == 0 {
        None
    } else if members[0].0@ == key {
        Some(members[0].1)
    } else {
        member_get(members.drop_first(), key)
    }
}

/// Whether an answer accepts the request: an object whose `ok` member is
/// `true`.
pub open spec fn acknowledges(v: JsonValue) -> bool {
    match v {
        JsonValue::Object(members) => member_get(members@, "ok"@) == Some(JsonValue::Bool(true)),
        _ => false,
    }
}

/// Whether a decoded answer accepts the request.
pub fn acknowledged_in(answer: &JsonValue) -> (r: bool)
    ensures
        r == acknowledges(*answer),
{
    match answer {
        JsonValue::Object(members) => {
            let key = chars_of("ok");
            let mut i: usize = 0;
            assert(members@.subrange(0, members@.len() as int) =~= members@);
            while i < members.len()
                invariant
                    i <= members@.len(),
                    key@ == "ok"@,
                    acknowledges(*answer) == (member_get(members@, "ok"@) == Some(
                        JsonValue::Bool(true),
                    )),
                    member_get(members@, "ok"@) == member_get(
                        members@.subrange(i as int, members@.len() as int),
                        "ok"@,
                    ),
                decreases members@.len() - i,
            {
                let ghost rest = members@.subrange(i as int, members@.len() as int);
                assert(rest.drop_first() =~= members@.subrange(i + 1, members@.len() as int));
                let name = chars_of(members[i].0.as_str());
                if chars_eq(&name, &key) {
                    assert(rest[0] == members@[i as int]);
                    assert(member_get(rest, "ok"@) == Some(members@[i as int].1));
                    return match &members[i].1 {
                        JsonValue::Bool(b) => *b,
                        _ => false,
                    };
                }
                i = i + 1;
            }
            false
        },
        _ => false,
    }
}

/// Whether the listener's answer line accepts the request: it must be JSON
/// with `"ok": true`; anything else, unreadable text included, counts as no.
pub fn sync_acknowledged(response: &str) -> (r: bool)
    ensures
        r == match json_document(response@) {
            Some(v) => acknowledges(v),
            None => false,
        },
{
    match parse_json(response) {
        Some(v) => acknowledged_in(&v),
        None => false,
    }
}

// ---------------------------------------------------------------------------
// The Windows port file
// ---------------------------------------------------------------------------

/// The number the ASCII decimal digits `ds` stand for.
pub open spec fn digits_value(ds: Seq<char>) -> nat
    decreases ds.len(),
{
    if ds.len() == 0 {
        0
    } else {
        digits_value(ds.drop_last()) * 10 + ((ds.last() as u32) - ('0' as u32)) as nat
    }
}

/// All characters are ASCII decimal digits.
pub open spec fn all_digits(ds: Seq<char>) -> bool {
    forall|i: int| 0 <= i < ds.len() ==> '0' <= #[trigger] ds[i] && ds[i] <= '9'
}

/// The digits of an unsigned number written with an optional `+`.
pub open spec fn unsigned_digits(t: Seq<char>) -> Seq<char> {
    if t.len() > 0 && t[0] == '+' {
        t.drop_first()
    } else {
        t
    }
}

/// What `str::parse::<u16>` gives for `t`: an optional `+`, then at least one
/// ASCII digit and nothing else, for a value that fits in 16 bits.
pub open spec fn parsed_u16(t: Seq<char>) -> Option<u16> {
    let ds = unsigned_digits(t);
    if ds.len() > 0 && all_digits(ds) && digits_value(ds) <= 0xffff {
        Some(digits_value(ds) as u16)
    } else {
        None
    }
}

proof fn lemma_digits_value_monotone(ds: Seq<char>, i: int)
    requires
        0 <= i <= ds.len(),
        all_digits(ds),
    ensures
        digits_value(ds.subrange(0, i)) <= digits_value(ds),
    decreases ds.len() - i,
{
    if i < ds.len() {
        lemma_digits_value_monotone(ds, i + 1);
        let a = ds.subrange(0, i + 1);
        assert(a.drop_last() =~= ds.subrange(0, i));
        assert('0' <= ds[i] && ds[i] <= '9');
    } else {
        assert(ds.subrange(0, i) =~= ds);
    }
}

/// Reads the listener port from the port file's text: the trimmed text
/// parsed as a 16-bit unsigned number, `None` when it is not one.
pub fn parse_listen_port(raw: &str) -> (r: Option<u16>)
    ensures
        r == parsed_u16(trim(raw@)),
{
    let cs = chars_of(raw);
    let t = trim_chars(&cs);
    let start: usize = if t.len() > 0 && t[0] == '+' { 1 } else { 0 };
    let ghost ds = unsigned_digits(t@);
    assert(ds =~= t@.subrange(start as int, t@.len() as int));
    if start == t.len() {
        return None;
    }
    let mut value: u32 = 0;
    let mut i: usize = start;
    while i < t.len()
        invariant
            start <= i <= t@.len(),
            ds == unsigned_digits(t@),
            t@ == trim(raw@),
            ds == t@.subrange(start as int, t@.len() as int),
            all_digits(ds.subrange(0, i - start)),
            value as nat == digits_value(ds.subrange(0, i - start)),
            value <= 0xffff,
        decreases t@.len() - i,
    {
        let c = t[i];
        let ghost pre = ds.subrange(0, i - start);
        let ghost next = ds.subrange(0, i + 1 - start);
        assert(next.drop_last() =~= pre);
        assert(next.last() == c);
        if c < '0' || c > '9' {
            assert(!all_digits(ds)) by {
                assert(ds[i - start] == c);
                assert(!('0' <= ds[i - start] && ds[i - start] <= '9'));
            }
            assert(parsed_u16(t@) is None);
            return None;
        }
        let d = (c as u32) - ('0' as u32);
        let candidate = value * 10 + d;
        if candidate > 0xffff {
            proof {
                assert(all_digits(next));
                assert(digits_value(next) == candidate);
                if all_digits(ds) {
                    lemma_digits_value_monotone(ds, i + 1 - start);
                    assert(digits_value(ds) > 0xffff);
                }
            }
            assert(parsed_u16(t@) is None);
            return None;
        }
        value = candidate;
        i = i + 1;
        assert(all_digits(next));
    }
    assert(ds.subrange(0, ds.len() as int) =~= ds);
    Some(value as u16)
}

proof fn lemma_decimal_digits(n: nat)
    ensures
        decimal(n).len() > 0,
        all_digits(decimal(n)),
        digits_value(decimal(n)) == n,
    decreases n,
{
    let d = n % 10;
    assert(digit_char(d) as u32 - '0' as u32 == d && '0' <= digit_char(d) <= '9') by {
        if d == 0 {} else if d == 1 {} else if d == 2 {} else if d == 3 {} else if d == 4 {}
        else if d == 5 {} else if d == 6 {} else if d == 7 {} else if d == 8 {} else {}
    }
    if n < 10 {
        let s = decimal(n);
        assert(s.drop_last() =~= Seq::<char>::empty());
        assert(d == n);
        assert(digits_value(s) == digits_value(s.drop_last()) * 10 + d);
    } else {
        lemma_decimal_digits(n / 10);
        let s = decimal(n);
        let pre = decimal(n / 10);
        assert(s.drop_last() =~= pre);
        assert(s.last() == digit_char(d));
        assert(n == (n / 10) * 10 + d) by (nonlinear_arith)
            requires
                d == n % 10,
        ;
        assert(digits_value(s) == digits_value(pre) * 10 + d);
        assert forall|i: int| 0 <= i < s.len() implies '0' <= #[trigger] s[i] && s[i] <= '9' by {
            if i < pre.len() {
                assert(s[i] == pre[i]);
            }
        }
    }
}

/// Law: the port file round-trips. `write_listen_port` stores the port as
/// its decimal text; `parse_listen_port` reads that text back as the same
/// port.
pub proof fn law_port_file_round_trip(port: u16)
    ensures
        parsed_u16(trim(decimal(port as nat))) == Some(port),
{
    let s = decimal(port as nat);
    lemma_decimal_digits(port as nat);
    assert(!is_white_space(s[0]) && s[0] != '+') by {
        assert('0' <= s[0] && s[0] <= '9');
    }
    assert(trim_start(s) == s);
    assert(!is_white_space(s.last())) by {
        assert('0' <= s[s.len() - 1] && s[s.len() - 1] <= '9');
    }
    assert(trim_end(s) == s);
    assert(unsigned_digits(s) == s);
}

} // verus!
