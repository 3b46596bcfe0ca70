//! Transaction verification: the response shape, its parser, and the
//! request URLs.
//!
//! The remote service answers a verification query with a JSON object
//! `{"status": <bool>, "message": <string>, "data": <string>}`. The parser
//! below reads exactly that shape — members in any order, each exactly
//! once, JSON whitespace allowed between tokens, string escapes decoded —
//! and `spec_parse` states character for character which bodies it accepts
//! and what they decode to.

use vstd::prelude::*;

use crate::amount::push_char;
use crate::error::ResponseError;

verus! {

/// The outcome of a verification call.
pub type VerificationResult<T> = Result<T, ResponseError>;

/// The deserialized verification response.
#[derive(Debug)]
pub struct VerificationData {
    /// Whether the transaction was verified.
    pub status: bool,
    /// The processor's message.
    pub message: String,
    /// Opaque payload content; its inner shape is not modeled.
    pub data: String,
}

/// The spec-level shape of a verification response.
pub struct VerificationView {
    pub status: bool,
    pub message: Seq<char>,
    pub data: Seq<char>,
}

impl View for VerificationData {
    type V = VerificationView;

    open spec fn view(&self) -> VerificationView {
        VerificationView { status: self.status, message: self.message@, data: self.data@ }
    }
}

/// A parsed member value: a JSON boolean or a JSON string.
pub enum JsonVal {
    B(bool),
    S(Seq<char>),
}

/// The three fields collected while walking the object's members.
pub struct FieldAcc {
    pub status: Option<bool>,
    pub message: Option<Seq<char>>,
    pub data: Option<Seq<char>>,
}

/// JSON whitespace.
pub open spec fn is_ws(c: char) -> bool {
    c == ' ' || c == '\t' || c == '\n' || c == '\r'
}

/// The first index at or after `i` that holds no whitespace.
pub open spec fn ws_to(s: Seq<char>, i: int) -> int
    decreases s.len() - i
        when 0 <= i <= s.len()
{
    if i < s.len() && is_ws(s[i]) {
        ws_to(s, i + 1)
    } else {
        i
    }
}

/// The character an escape letter stands for, if it is a valid escape.
pub open spec fn unescape(c: char) -> Option<char> {
    if c == '"' {
        Some('"')
    } else if c == '\\' {
        Some('\\')
    } else if c == '/' {
        Some('/')
    } else if c == 'n' {
        Some('\n')
    } else if c == 't' {
        Some('\t')
    } else if c == 'r' {
        Some('\r')
    } else if c == 'b' {
        Some('\u{8}')
    } else if c == 'f' {
        Some('\u{c}')
    } else {
        None
    }
}

/// The body of a JSON string read from `i` (just past the opening quote)
/// to its closing quote: the decoded characters and the index after the
/// quote. Raw control characters are refused, as are `\u` escapes.
pub open spec fn str_content(s: Seq<char>, i: int) -> Option<(Seq<char>, int)>
    decreases s.len() - i
        when 0 <= i <= s.len()
{
    if i >= s.len() {
        None
    } else if s[i] == '"' {
        Some((Seq::<char>::empty(), i + 1))
    } else if s[i] == '\\' {
        if i + 1 < s.len() {
            match unescape(s[i + 1]) {
                Some(c) => match str_content(s, i + 2) {
                    Some((t, j)) => Some((seq![c] + t, j)),
                    None => None,
                },
                None => None,
            }
        } else {
            None
        }
    } else if (s[i] as int) < 32 {
        None
    } else {
        match str_content(s, i + 1) {
            Some((t, j)) => Some((seq![s[i]] + t, j)),
            None => None,
        }
    }
}

/// A member value at `i`: a string or a boolean literal.
pub open spec fn val_at(s: Seq<char>, i: int) -> Option<(JsonVal, int)> {
    if 0 <= i < s.len() && s[i] == '"' {
        match str_content(s, i + 1) {
            Some((t, j)) => Some((JsonVal::S(t), j)),
            None => None,
        }
    } else if 0 <= i && i + 4 <= s.len() && s[i] == 't' && s[i + 1] == 'r' && s[i + 2] == 'u' && s[
        i + 3
    ] == 'e' {
        Some((JsonVal::B(true), i + 4))
    } else if 0 <= i && i + 5 <= s.len() && s[i] == 'f' && s[i + 1] == 'a' && s[i + 2] == 'l' && s[
        i + 3
    ] == 's' && s[i + 4] == 'e' {
        Some((JsonVal::B(false), i + 5))
    } else {
        None
    }
}

/// One `"key": value` member starting at `i` (whitespace already skipped).
pub open spec fn member_at(s: Seq<char>, i: int) -> Option<(Seq<char>, JsonVal, int)> {
    if 0 <= i < s.len() && s[i] == '"' {
        match str_content(s, i + 1) {
            Some((k, j)) => {
                let j2 = ws_to(s, j);
                if j2 < s.len() && s[j2] == ':' {
                    let j3 = ws_to(s, j2 + 1);
                    match val_at(s, j3) {
                        Some((v, j4)) => Some((k, v, j4)),
                        None => None,
                    }
                } else {
                    None
                }
            },
            None => None,
        }
    } else {
        None
    }
}

/// Fold one member into the accumulator: each known key takes its typed
/// value exactly once; an unknown key, a wrongly typed value or a
/// duplicate key is an error.
pub open spec fn add_member(acc: FieldAcc, k: Seq<char>, v: JsonVal) -> Option<FieldAcc> {
    if k == "status"@ {
        match v {
            JsonVal::B(bv) => if acc.status is None {
                Some(FieldAcc { status: Some(bv), ..acc })
            } else {
                None
            },
            JsonVal::S(_) => None,
        }
    } else if k == "message"@ {
        match v {
            JsonVal::S(t) => if acc.message is None {
                Some(FieldAcc { message: Some(t), ..acc })
            } else {
                None
            },
            JsonVal::B(_) => None,
        }
    } else if k == "data"@ {
        match v {
            JsonVal::S(t) => if acc.data is None {
                Some(FieldAcc { data: Some(t), ..acc })
            } else {
                None
            },
            JsonVal::B(_) => None,
        }
    } else {
        None
    }
}

/// The remaining members of the object, at most `n` more, starting at a
/// member: the filled accumulator and the index after the closing brace.
pub open spec fn members_rest(s: Seq<char>, i: int, acc: FieldAcc, n: nat) -> Option<
    (FieldAcc, int),
>
    decreases n,
{
    if n == 0 {
        None
    } else {
        match member_at(s, i) {
            Some((k, v, j)) => match add_member(acc, k, v) {
                Some(acc2) => {
                    let j2 = ws_to(s, j);
                    if j2 < s.len() && s[j2] == ',' {
                        members_rest(s, ws_to(s, j2 + 1), acc2, (n - 1) as nat)
                    } else if j2 < s.len() && s[j2] == '}' {
                        Some((acc2, j2 + 1))
                    } else {
                        None
                    }
                },
                None => None,
            },
            None => None,
        }
    }
}

/// The spec-level parse of a verification response body: `Some` exactly on
/// the bodies this library accepts, with the decoded fields.
pub open spec fn spec_parse(s: Seq<char>) -> Option<VerificationView> {
    let i0 = ws_to(s, 0);
    if i0 < s.len() && s[i0] == '{' {
        let i1 = ws_to(s, i0 + 1);
        let acc0 = FieldAcc { status: None, message: None, data: None };
        match members_rest(s, i1, acc0, 3) {
            Some((acc, j)) => match (acc.status, acc.message, acc.data) {
                (Some(st), Some(msg), Some(dat)) => if ws_to(s, j) == s.len() {
                    Some(VerificationView { status: st, message: msg, data: dat })
                } else {
                    None
                },
                _ => None,
            },
            None => None,
        }
    } else {
        None
    }
}

/// A parsed member value as executable data.
enum ParsedVal {
    B(bool),
    S(String),
}

/// The spec shape of a parsed value.
spec fn pv_view(v: ParsedVal) -> JsonVal {
    match v {
        ParsedVal::B(b) => JsonVal::B(b),
        ParsedVal::S(s) => JsonVal::S(s@),
    }
}

/// The fields collected so far, as executable data.
struct AccExec {
    status: Option<bool>,
    message: Option<String>,
    data: Option<String>,
}

/// The spec shape of the collected fields.
spec fn acc_view(a: AccExec) -> FieldAcc {
    FieldAcc {
        status: a.status,
        message: match a.message {
            Some(m) => Some(m@),
            None => None,
        },
        data: match a.data {
            Some(d) => Some(d@),
            None => None,
        },
    }
}

/// Skip JSON whitespace from `i`.
fn ws_to_exec(s: &str, i: usize) -> (j: usize)
    requires
        i <= s@.len(),
    ensures
        j as int == ws_to(s@, i as int),
        i <= j <= s@.len(),
{
    let n = s.unicode_len();
    let mut j = i;
    loop
        invariant
            i <= j <= n,
            n == s@.len(),
            ws_to(s@, i as int) == ws_to(s@, j as int),
        ensures
            i <= j <= n,
            ws_to(s@, i as int) == ws_to(s@, j as int),
            j == n || !is_ws(s@[j as int]),
        decreases n - j,
    {
        if j < n {
            let c = s.get_char(j);
            if c == ' ' || c == '\t' || c == '\n' || c == '\r' {
                j = j + 1;
            } else {
                break ;
            }
        } else {
            break ;
        }
    }
    j
}

/// The character an escape letter stands for.
fn unescape_exec(c: char) -> (r: Option<char>)
    ensures
        r == unescape(c),
{
    if c == '"' {
        Some('"')
    } else if c == '\\' {
        Some('\\')
    } else if c == '/' {
        Some('/')
    } else if c == 'n' {
        Some('\n')
    } else if c == 't' {
        Some('\t')
    } else if c == 'r' {
        Some('\r')
    } else if c == 'b' {
        Some('\u{8}')
    } else if c == 'f' {
        Some('\u{c}')
    } else {
        None
    }
}

/// Read the body of a JSON string, from just past the opening quote.
fn str_content_exec(s: &str, i: usize) -> (r: Option<(String, usize)>)
    requires
        i <= s@.len(),
    ensures
        match r {
            Some(p) => str_content(s@, i as int) == Some((p.0@, p.1 as int)) && i < p.1 <= s@.len(),
            None => str_content(s@, i as int) is None,
        },
    decreases s@.len() - i,
{
    let n = s.unicode_len();
    if i >= n {
        return None;
    }
    let c = s.get_char(i);
    if c == '"' {
        Some((String::new(), i + 1))
    } else if c == '\\' {
        if i + 1 < n {
            let e = s.get_char(i + 1);
            match unescape_exec(e) {
                Some(u) => match str_content_exec(s, i + 2) {
                    Some((t, j)) => {
                        let mut out = String::new();
                        push_char(&mut out, u);
                        out.append(t.as_str());
                        proof {
                            assert(out@ =~= seq![u] + t@);
                        }
                        Some((out, j))
                    },
                    None => None,
                },
                None => None,
            }
        } else {
            None
        }
    } else {
        let code: u32 = c as u32;
        if code < 32 {
            None
        } else {
            match str_content_exec(s, i + 1) {
                Some((t, j)) => {
                    let mut out = String::new();
                    push_char(&mut out, c);
                    out.append(t.as_str());
                    proof {
                        assert(out@ =~= seq![c] + t@);
                    }
                    Some((out, j))
                },
                None => None,
            }
        }
    }
}

/// Read a member value: a string or a boolean literal.
fn val_at_exec(s: &str, i: usize) -> (r: Option<(ParsedVal, usize)>)
    requires
        i <= s@.len(),
    ensures
        match r {
            Some(p) => val_at(s@, i as int) == Some((pv_view(p.0), p.1 as int)) && p.1 <= s@.len(),
            None => val_at(s@, i as int) is None,
        },
{
    let n = s.unicode_len();
    if i < n && s.get_char(i) == '"' {
        match str_content_exec(s, i + 1) {
            Some((t, j)) => Some((ParsedVal::S(t), j)),
            None => None,
        }
    } else if n - i >= 4 && s.get_char(i) == 't' && s.get_char(i + 1) == 'r' && s.get_char(i + 2)
        == 'u' && s.get_char(i + 3) == 'e' {
        Some((ParsedVal::B(true), i + 4))
    } else if n - i >= 5 && s.get_char(i) == 'f' && s.get_char(i + 1) == 'a' && s.get_char(i + 2)
        == 'l' && s.get_char(i + 3) == 's' && s.get_char(i + 4) == 'e' {
        Some((ParsedVal::B(false), i + 5))
    } else {
        None
    }
}

/// Read one `"key": value` member.
fn member_at_exec(s: &str, i: usize) -> (r: Option<(String, ParsedVal, usize)>)
    requires
        i <= s@.len(),
    ensures
        match r {
            Some(p) => member_at(s@, i as int) == Some((p.0@, pv_view(p.1), p.2 as int)) && p.2
                <= s@.len(),
            None => member_at(s@, i as int) is None,
        },
{
    let n = s.unicode_len();
    if i < n && s.get_char(i) == '"' {
        match str_content_exec(s, i + 1) {
            Some((k, j)) => {
                let j2 = ws_to_exec(s, j);
                if j2 < n && s.get_char(j2) == ':' {
                    let j3 = ws_to_exec(s, j2 + 1);
                    match val_at_exec(s, j3) {
                        Some((v, j4)) => Some((k, v, j4)),
                        None => None,
                    }
                } else {
                    None
                }
            },
            None => None,
        }
    } else {
        None
    }
}

/// Fold one member into the collected fields.
fn add_member_exec(acc: AccExec, k: &String, v: ParsedVal) -> (r: Option<AccExec>)
    ensures
        match r {
            Some(a2) => add_member(acc_view(acc), k@, pv_view(v)) == Some(acc_view(a2)),
            None => add_member(acc_view(acc), k@, pv_view(v)) is None,
        },
{
    let status_key = String::from_str("status");
    let message_key = String::from_str("message");
    let data_key = String::from_str("data");
    if *k == status_key {
        match v {
            ParsedVal::B(bv) => {
                if acc.status.is_none() {
                    Some(AccExec { status: Some(bv), ..acc })
                } else {
                    None
                }
            },
            ParsedVal::S(_) => None,
        }
    } else if *k == message_key {
        match v {
            ParsedVal::S(t) => {
                if acc.message.is_none() {
                    Some(AccExec { message: Some(t), ..acc })
                } else {
                    None
                }
            },
            ParsedVal::B(_) => None,
        }
    } else if *k == data_key {
        match v {
            ParsedVal::S(t) => {
                if acc.data.is_none() {
                    Some(AccExec { data: Some(t), ..acc })
                } else {
                    None
                }
            },
            ParsedVal::B(_) => None,
        }
    } else {
        None
    }
}

/// Read the remaining members, at most `n` more.
fn members_rest_exec(s: &str, i: usize, acc: AccExec, n: u8) -> (r: Option<(AccExec, usize)>)
    requires
        i <= s@.len(),
    ensures
        match r {
            Some(p) => members_rest(s@, i as int, acc_view(acc), n as nat) == Some(
                (acc_view(p.0), p.1 as int),
            ) && p.1 <= s@.len(),
            None => members_rest(s@, i as int, acc_view(acc), n as nat) is None,
        },
    decreases n,
{
    if n == 0 {
        return None;
    }
    match member_at_exec(s, i) {
        Some((k, v, j)) => {
            match add_member_exec(acc, &k, v) {
                Some(acc2) => {
                    let j2 = ws_to_exec(s, j);
                    let n_s = s.unicode_len();
                    if j2 < n_s {
                        let c = s.get_char(j2);
                        if c == ',' {
                            let i2 = ws_to_exec(s, j2 + 1);
                            members_rest_exec(s, i2, acc2, n - 1)
                        } else if c == '}' {
                            Some((acc2, j2 + 1))
                        } else {
                            None
                        }
                    } else {
                        None
                    }
                },
                None => None,
            }
        },
        None => None,
    }
}

/// The fixed description carried by a response that could not be read.
fn parse_error() -> (e: ResponseError)
    ensures
        e matches ResponseError::PayStackError(m) && m@ == "could not read verification response"@,
{
    ResponseError::PayStackError(String::from_str("could not read verification response"))
}

/// Deserialize a verification response body into its `VerificationData`
/// shape. Returns `Ok` exactly on the bodies `spec_parse` accepts, with
/// exactly the fields it decodes; any other body is reported as a
/// Paystack error.
pub fn parse_verification(body: &str) -> (r: Result<VerificationData, ResponseError>)
    ensures
        match spec_parse(body@) {
            Some(v) => r matches Ok(d) && d@ == v,
            None => r matches Err(ResponseError::PayStackError(m)) && m@
                == "could not read verification response"@,
        },
{
    let n = body.unicode_len();
    let i0 = ws_to_exec(body, 0);
    if i0 < n && body.get_char(i0) == '{' {
        let i1 = ws_to_exec(body, i0 + 1);
        let acc = AccExec { status: None, message: None, data: None };
        match members_rest_exec(body, i1, acc, 3) {
            Some((a2, j)) => {
                match (a2.status, a2.message, a2.data) {
                    (Some(st), Some(msg), Some(dat)) => {
                        let j2 = ws_to_exec(body, j);
                        if j2 == n {
                            Ok(VerificationData { status: st, message: msg, data: dat })
                        } else {
                            Err(parse_error())
                        }
                    },
                    _ => Err(parse_error()),
                }
            },
            None => Err(parse_error()),
        }
    } else {
        Err(parse_error())
    }
}

/// The URL of the transaction verification endpoint for a reference.
pub fn verify_url(reference: &str) -> (u: String)
    ensures
        u@ == "https://api.paystack.co/transaction/verify/"@ + reference@,
{
    let mut u = String::from_str("https://api.paystack.co/transaction/verify/");
    u.append(reference);
    u
}

/// The URL of the transaction initialization endpoint.
pub fn initialize_url() -> (u: String)
    ensures
        u@ == "https://api.paystack.co/transaction/initialize"@,
{
    String::from_str("https://api.paystack.co/transaction/initialize")
}

} // verus!
