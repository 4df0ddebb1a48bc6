//! Classification of the API's answer into success or a readable error.

use vstd::prelude::*;

use crate::error::StoreError;

verus! {

/// The optional shape of an unsuccessful response body: either field may
/// carry a readable error.
#[derive(Debug, Clone)]
pub struct ApiErrorBody {
    pub detail: Option<String>,
    pub message: Option<String>,
}

/// A 2xx status.
pub open spec fn is_success_status(status: u16) -> bool {
    200 <= status < 300
}

/// Whether `status` is a 2xx status.
pub fn is_success(status: u16) -> (r: bool)
    ensures
        r == is_success_status(status),
{
    200 <= status && status < 300
}

/// The error text of an unsuccessful response: `detail` if the body parsed
/// and has it, else `message` if it has that, else the raw body text.
pub open spec fn error_text_of(raw: Seq<char>, parsed: Option<ApiErrorBody>) -> Seq<char> {
    match parsed {
        Some(b) => match (b.detail, b.message) {
            (Some(d), _) => d@,
            (None, Some(m)) => m@,
            (None, None) => raw,
        },
        None => raw,
    }
}

/// Picks the error text of an unsuccessful response from its raw body and
/// the body parsed as an `ApiErrorBody`, where it parsed.
pub fn error_text(raw: String, parsed: Option<ApiErrorBody>) -> (r: String)
    ensures
        r@ == error_text_of(raw@, parsed),
{
    match parsed {
        Some(b) => match (b.detail, b.message) {
            (Some(d), _) => d,
            (None, Some(m)) => m,
            (None, None) => raw,
        },
        None => raw,
    }
}

/// The decimal digit `d`.
pub open spec fn digit_char(d: nat) -> char {
    seq!['0', '1', '2', '3', '4', '5', '6', '7', '8', '9'][d as int]
}

/// The decimal numeral of `n`, without leading zeros.
pub open spec fn decimal(n: nat) -> Seq<char>
    decreases n,
{
    if n < 10 {
        seq![digit_char(n)]
    } else {
        decimal(n / 10) + seq![digit_char(n % 10)]
    }
}

fn digit_text(d: u16) -> (r: &'static str)
    requires
        d < 10,
    ensures
        r@ == seq![digit_char(d as nat)],
{
    proof {
        reveal_strlit("0");
        reveal_strlit("1");
        reveal_strlit("2");
        reveal_strlit("3");
        reveal_strlit("4");
        reveal_strlit("5");
        reveal_strlit("6");
        reveal_strlit("7");
        reveal_strlit("8");
        reveal_strlit("9");
    }
    let r = if d == 0 {
        "0"
    } else if d == 1 {
        "1"
    } else if d == 2 {
        "2"
    } else if d == 3 {
        "3"
    } else if d == 4 {
        "4"
    } else if d == 5 {
        "5"
    } else if d == 6 {
        "6"
    } else if d == 7 {
        "7"
    } else if d == 8 {
        "8"
    } else {
        "9"
    };
    assert(r@ =~= seq![digit_char(d as nat)]);
    r
}

/// The decimal numeral of `n`.
pub fn decimal_text(n: u16) -> (r: String)
    ensures
        r@ == decimal(n as nat),
    decreases n,
{
    if n < 10 {
        String::from_str(digit_text(n))
    } else {
        let mut s = decimal_text(n / 10);
        s.append(digit_text(n % 10));
        s
    }
}

/// The friendly message of an unsuccessful response with status `status`
/// and error text `msg`. For 401, 403, 404 and 500 the error text is not
/// shown.
pub open spec fn friendly(status: u16, msg: Seq<char>) -> Seq<char> {
    if status == 401 {
        "Unauthorized - check your API token"@
    } else if status == 403 {
        "Forbidden - you don't have permission for this project"@
    } else if status == 404 {
        "Not found - check the API URL and project slug"@
    } else if status == 400 {
        "Bad request - "@ + msg
    } else if status == 500 {
        "Server error - please try again later"@
    } else {
        "HTTP "@ + decimal(status as nat) + " - "@ + msg
    }
}

/// Builds the friendly message for an unsuccessful response.
pub fn friendly_message(status: u16, msg: &str) -> (r: String)
    ensures
        r@ == friendly(status, msg@),
{
    if status == 401 {
        String::from_str("Unauthorized - check your API token")
    } else if status == 403 {
        String::from_str("Forbidden - you don't have permission for this project")
    } else if status == 404 {
        String::from_str("Not found - check the API URL and project slug")
    } else if status == 400 {
        String::from_str("Bad request - ").concat(msg)
    } else if status == 500 {
        String::from_str("Server error - please try again later")
    } else {
        let mut r = String::from_str("HTTP ");
        let code = decimal_text(status);
        r.append(code.as_str());
        r.append(" - ");
        r.append(msg);
        r
    }
}

/// Whether the body of a successful response is shown: it is neither empty
/// nor the text `null`.
pub open spec fn shows_body(body: Seq<char>) -> bool {
    body.len() > 0 && body != "null"@
}

/// The body of a successful response, where it is shown.
pub fn surfaced_body(body: String) -> (r: Option<String>)
    ensures
        match r {
            Some(b) => shows_body(body@) && b@ == body@,
            None => !shows_body(body@),
        },
{
    let null = String::from_str("null");
    if body.as_str().is_empty() || body == null {
        None
    } else {
        Some(body)
    }
}

/// What an answer comes to: on success, the body to show, if any; on
/// failure, the friendly message.
pub open spec fn outcome(status: u16, body: Seq<char>, parsed: Option<ApiErrorBody>) -> Result<
    Option<Seq<char>>,
    Seq<char>,
> {
    if is_success_status(status) {
        Ok(
            if shows_body(body) {
                Some(body)
            } else {
                None
            },
        )
    } else {
        Err(friendly(status, error_text_of(body, parsed)))
    }
}

/// Classifies an answer of the API from its status, its body text and, for
/// an unsuccessful one, its body parsed as an `ApiErrorBody` where it
/// parsed. Success gives the body to show, if any; failure is an API
/// request error with the friendly message.
pub fn classify_response(status: u16, body: String, parsed: Option<ApiErrorBody>) -> (r: Result<
    Option<String>,
    StoreError,
>)
    ensures
        match (r, outcome(status, body@, parsed)) {
            (Ok(Some(b)), Ok(Some(t))) => b@ == t,
            (Ok(None), Ok(None)) => true,
            (Err(StoreError::ApiRequest { message }), Err(m)) => message@ == m,
            _ => false,
        },
{
    if is_success(status) {
        Ok(surfaced_body(body))
    } else {
        let msg = error_text(body, parsed);
        Err(StoreError::ApiRequest { message: friendly_message(status, msg.as_str()) })
    }
}

/// For 401, 403, 404 and 500 the answer is the same fixed error whatever
/// the body holds.
pub proof fn lemma_fixed_messages(
    status: u16,
    body1: Seq<char>,
    parsed1: Option<ApiErrorBody>,
    body2: Seq<char>,
    parsed2: Option<ApiErrorBody>,
)
    requires
        status == 401 || status == 403 || status == 404 || status == 500,
    ensures
        outcome(status, body1, parsed1) is Err,
        outcome(status, body1, parsed1) == outcome(status, body2, parsed2),
{
}

} // verus!
