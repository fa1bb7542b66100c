//! The fetched bytes: decoding them, the request headers, and the policy of retries.

use crate::errors::{join, AppError};
use crate::json::{from_value, Json, Tree};
use crate::text::{chars_of, find_sep, next_sep, piece, trim_range, trimmed};
use vstd::prelude::*;
use vstd::string::{StrSliceExecFns, StringExecFns};

verus! {

/// What `serde_json::from_slice` makes of a body: the document, or the
/// message of its error.
pub uninterp spec fn decoded(bytes: Seq<u8>) -> Result<Tree, Seq<char>>;

/// `serde_json::from_slice`, for a `serde_json::Value`: the document that
/// the bytes spell, or the error's own message.
#[verifier::external_body]
fn decode(bytes: &[u8]) -> (r: Result<Json, String>)
    ensures
        match r {
            Ok(doc) => decoded(bytes@) == Ok::<Tree, Seq<char>>(doc@),
            Err(msg) => decoded(bytes@) == Err::<Tree, Seq<char>>(msg@),
        },
{
    match serde_json::from_slice::<serde_json::Value>(bytes) {
        Ok(value) => Ok(from_value(value)),
        Err(err) => Err(err.to_string()),
    }
}

/// What parsing a body yields: the document, or a JSON error whose message
/// wraps that of the decoder.
pub open spec fn parse_json_spec(bytes: Seq<u8>) -> Result<Tree, Seq<char>> {
    match decoded(bytes) {
        Ok(doc) => Ok(doc),
        Err(msg) => Err("invalid JSON: "@ + msg),
    }
}

/// Decodes a body as JSON: see [`parse_json_spec`]. Nothing of the
/// document's shape is checked here.
pub fn parse_json(bytes: &[u8]) -> (r: Result<Json, AppError>)
    ensures
        match r {
            Ok(doc) => parse_json_spec(bytes@) == Ok::<Tree, Seq<char>>(doc@),
            Err(e) => e is Json && parse_json_spec(bytes@) == Err::<Tree, Seq<char>>(e.text()),
        },
{
    match decode(bytes) {
        Ok(doc) => Ok(doc),
        Err(msg) => Err(AppError::Json(join("invalid JSON: ", msg.as_str()))),
    }
}

/// Whether a character may stand in the name of a header: a letter or digit
/// of ASCII, or one of the marks that HTTP allows in a token.
pub open spec fn token_char(c: char) -> bool {
    ('0' <= c && c <= '9') || ('a' <= c && c <= 'z') || ('A' <= c && c <= 'Z') || c == '!' || c
        == '#' || c == '$' || c == '%' || c == '&' || c == '\'' || c == '*' || c == '+' || c
        == '-' || c == '.' || c == '^' || c == '_' || c == '`' || c == '|' || c == '~'
}

/// Whether a string can name a header: 1 to 65535 token characters.
pub open spec fn header_name_ok(name: Seq<char>) -> bool {
    0 < name.len() <= 65535 && forall|i: int| 0 <= i < name.len() ==> token_char(#[trigger] name[i])
}

/// Whether a string can be the value of a header: no control character but the tab.
pub open spec fn header_value_ok(value: Seq<char>) -> bool {
    forall|i: int|
        0 <= i < value.len() ==> {
            let c = #[trigger] value[i];
            (' ' <= c && c != '\u{7f}') || c == '\t'
        }
}

/// `HeaderName::from_bytes` of `reqwest::header`, on the bytes of a string:
/// whether it accepts them, which it does for 1 to 65535 token characters.
#[verifier::external_body]
fn header_name_accepted(name: &str) -> (r: bool)
    ensures
        r == header_name_ok(name@),
{
    reqwest::header::HeaderName::from_bytes(name.as_bytes()).is_ok()
}

/// `HeaderValue::from_str` of `reqwest::header`: whether it accepts the
/// string, which it does unless a control character other than the tab is in it.
#[verifier::external_body]
fn header_value_accepted(value: &str) -> (r: bool)
    ensures
        r == header_value_ok(value@),
{
    reqwest::header::HeaderValue::from_str(value).is_ok()
}

/// What a raw `Name: value` header parses to: the name before the first
/// colon and the value after it, each without the white space around it.
pub open spec fn parse_header_spec(raw: Seq<char>) -> Result<(Seq<char>, Seq<char>), Seq<char>> {
    let colon = next_sep(raw, ':', 0);
    let name = piece(raw, 0, colon);
    let value = piece(raw, colon + 1, raw.len() as int);
    if name.len() == 0 || colon >= raw.len() {
        Err("invalid header format: "@ + raw)
    } else if !header_name_ok(name) {
        Err("invalid header name: "@ + name)
    } else if !header_value_ok(value) {
        Err("invalid header value for: "@ + name)
    } else {
        Ok((name, value))
    }
}

/// Parses one raw header: see [`parse_header_spec`].
pub fn parse_header(raw: &str) -> (r: Result<(String, String), AppError>)
    ensures
        match r {
            Ok(header) => parse_header_spec(raw@) == Ok::<(Seq<char>, Seq<char>), Seq<char>>(
                (header.0@, header.1@),
            ),
            Err(e) => e is Usage && parse_header_spec(raw@) == Err::<
                (Seq<char>, Seq<char>),
                Seq<char>,
            >(e.text()),
        },
{
    let chars = chars_of(raw);
    let colon = find_sep(&chars, ':', 0);
    let (a, b) = trim_range(&chars, 0, colon);
    if a == b || colon >= chars.len() {
        return Err(AppError::Usage(join("invalid header format: ", raw)));
    }
    let name = raw.substring_char(a, b);
    let (c, d) = trim_range(&chars, colon + 1, chars.len());
    let value = raw.substring_char(c, d);
    if !header_name_accepted(name) {
        return Err(AppError::Usage(join("invalid header name: ", name)));
    }
    if !header_value_accepted(value) {
        return Err(AppError::Usage(join("invalid header value for: ", name)));
    }
    Ok((name.to_owned(), value.to_owned()))
}

/// The lowercase form of a letter of ASCII; any other character is itself.
pub open spec fn lower_ascii(c: char) -> char {
    if 'A' <= c && c <= 'Z' {
        ((c as u8 + 32) as u8) as char
    } else {
        c
    }
}

/// Whether two names are the same header: the same but for the case of
/// their letters.
pub open spec fn same_name(a: Seq<char>, b: Seq<char>) -> bool {
    a.len() == b.len() && forall|i: int|
        0 <= i < a.len() ==> lower_ascii(#[trigger] a[i]) == lower_ascii(b[i])
}

/// The position of the first header at or after `i` that has this name.
pub open spec fn find_name(headers: Seq<(Seq<char>, Seq<char>)>, name: Seq<char>, i: int) -> Option<
    int,
>
    decreases headers.len() - i,
{
    if i < 0 || i >= headers.len() {
        None
    } else if same_name(headers[i].0, name) {
        Some(i)
    } else {
        find_name(headers, name, i + 1)
    }
}

/// The headers with one more set: it takes the place of the header of its
/// name, or stands at the end where there is none.
pub open spec fn set_header_spec(
    headers: Seq<(Seq<char>, Seq<char>)>,
    header: (Seq<char>, Seq<char>),
) -> Seq<(Seq<char>, Seq<char>)> {
    match find_name(headers, header.0, 0) {
        Some(at) => headers.update(at, header),
        None => headers.push(header),
    }
}

/// The headers after every raw header from position `i` on is parsed and
/// set; the first that does not parse ends it.
pub open spec fn headers_from(
    raw: Seq<String>,
    i: int,
    acc: Seq<(Seq<char>, Seq<char>)>,
) -> Result<Seq<(Seq<char>, Seq<char>)>, Seq<char>>
    decreases raw.len() - i,
{
    if i < 0 || i >= raw.len() {
        Ok(acc)
    } else {
        match parse_header_spec(raw[i]@) {
            Ok(header) => headers_from(raw, i + 1, set_header_spec(acc, header)),
            Err(e) => Err(e),
        }
    }
}

/// The headers that every request starts from: JSON is asked for, and the
/// client names itself.
pub open spec fn default_headers() -> Seq<(Seq<char>, Seq<char>)> {
    seq![("accept"@, "application/json"@), ("user-agent"@, "openapi-snapshot"@)]
}

/// The headers of a request: the defaults, then those of the caller set one
/// after the other, so that a later one replaces an earlier one of its name.
pub open spec fn build_headers_spec(raw: Seq<String>) -> Result<
    Seq<(Seq<char>, Seq<char>)>,
    Seq<char>,
> {
    headers_from(raw, 0, default_headers())
}

/// The names and values of a list of headers.
pub open spec fn headers_view(headers: Seq<(String, String)>) -> Seq<(Seq<char>, Seq<char>)> {
    Seq::new(headers.len(), |i: int| (headers[i].0@, headers[i].1@))
}

/// The lowercase form of a letter of ASCII; any other character is itself.
fn to_lower_ascii(c: char) -> (r: char)
    ensures
        r == lower_ascii(c),
{
    if 'A' <= c && c <= 'Z' {
        (c as u8 + 32) as char
    } else {
        c
    }
}

/// Whether two names are the same header.
pub fn names_match(a: &str, b: &str) -> (r: bool)
    ensures
        r == same_name(a@, b@),
{
    let left = chars_of(a);
    let right = chars_of(b);
    if left.len() != right.len() {
        return false;
    }
    let mut i: usize = 0;
    while i < left.len()
        invariant
            i <= left.len(),
            left@ == a@,
            right@ == b@,
            left.len() == right.len(),
            forall|k: int| 0 <= k < i ==> lower_ascii(#[trigger] a@[k]) == lower_ascii(b@[k]),
        decreases left.len() - i,
    {
        if to_lower_ascii(left[i]) != to_lower_ascii(right[i]) {
            return false;
        }
        i += 1;
    }
    true
}

/// Sets one more header: see [`set_header_spec`].
pub fn set_header(headers: &mut Vec<(String, String)>, header: (String, String))
    ensures
        headers_view(final(headers)@) == set_header_spec(
            headers_view(old(headers)@),
            (header.0@, header.1@),
        ),
{
    let ghost before = headers_view(headers@);
    let mut i: usize = 0;
    while i < headers.len()
        invariant
            i <= headers.len(),
            *headers == *old(headers),
            before == headers_view(headers@),
            find_name(before, header.0@, 0) == find_name(before, header.0@, i as int),
        decreases headers.len() - i,
    {
        if names_match(headers[i].0.as_str(), header.0.as_str()) {
            headers.set(i, header);
            return ;
        }
        i += 1;
    }
    headers.push(header);
}

/// Builds the headers of a request: see [`build_headers_spec`].
pub fn build_headers(raw_headers: &Vec<String>) -> (r: Result<Vec<(String, String)>, AppError>)
    ensures
        match r {
            Ok(headers) => build_headers_spec(raw_headers@) == Ok::<
                Seq<(Seq<char>, Seq<char>)>,
                Seq<char>,
            >(headers_view(headers@)),
            Err(e) => e is Usage && build_headers_spec(raw_headers@) == Err::<
                Seq<(Seq<char>, Seq<char>)>,
                Seq<char>,
            >(e.text()),
        },
{
    let mut headers: Vec<(String, String)> = Vec::new();
    headers.push(("accept".to_owned(), "application/json".to_owned()));
    headers.push(("user-agent".to_owned(), "openapi-snapshot".to_owned()));
    assert(headers_view(headers@) =~= default_headers());
    let mut i: usize = 0;
    while i < raw_headers.len()
        invariant
            i <= raw_headers.len(),
            build_headers_spec(raw_headers@) == headers_from(
                raw_headers@,
                i as int,
                headers_view(headers@),
            ),
        decreases raw_headers.len() - i,
    {
        match parse_header(raw_headers[i].as_str()) {
            Ok(header) => {
                set_header(&mut headers, header);
            },
            Err(e) => {
                return Err(e);
            },
        }
        i += 1;
    }
    Ok(headers)
}

/// The most attempts that one fetch makes.
pub const MAX_ATTEMPTS: u32 = 3;

/// The wait before the first retry, in milliseconds.
pub const BASE_DELAY_MS: u64 = 250;

/// The longest wait between two attempts, in milliseconds.
pub const MAX_DELAY_MS: u64 = 2_000;

/// The most characters of a response body that an error message quotes.
pub const SNIPPET_MAX: usize = 200;

/// Whether a status is a success: 200 to 299.
pub open spec fn is_success_spec(status: u16) -> bool {
    200 <= status <= 299
}

/// Whether a failed status is worth another attempt: 429, and 500 to 599.
pub open spec fn is_retryable_spec(status: u16) -> bool {
    status == 429 || 500 <= status <= 599
}

/// Whether a status is a success.
pub fn is_success(status: u16) -> (r: bool)
    ensures
        r == is_success_spec(status),
{
    200 <= status && status <= 299
}

/// Whether a failed status is worth another attempt.
pub fn is_retryable_status(status: u16) -> (r: bool)
    ensures
        r == is_retryable_spec(status),
{
    status == 429 || (500 <= status && status <= 599)
}

/// The wait that follows a wait of `delay_ms`: twice as long, up to the cap.
pub open spec fn next_delay_spec(delay_ms: u64) -> u64 {
    if delay_ms >= MAX_DELAY_MS / 2 {
        MAX_DELAY_MS
    } else {
        (delay_ms * 2) as u64
    }
}

/// The wait that follows a wait of `delay_ms`.
pub fn next_delay(delay_ms: u64) -> (r: u64)
    ensures
        r == next_delay_spec(delay_ms),
        r <= MAX_DELAY_MS,
        delay_ms <= MAX_DELAY_MS ==> delay_ms <= r,
{
    if delay_ms >= MAX_DELAY_MS / 2 {
        MAX_DELAY_MS
    } else {
        delay_ms * 2
    }
}

/// The text of one decimal digit.
pub open spec fn digit_text(d: int) -> Seq<char> {
    if d == 0 {
        "0"@
    } else if d == 1 {
        "1"@
    } else if d == 2 {
        "2"@
    } else if d == 3 {
        "3"@
    } else if d == 4 {
        "4"@
    } else if d == 5 {
        "5"@
    } else if d == 6 {
        "6"@
    } else if d == 7 {
        "7"@
    } else if d == 8 {
        "8"@
    } else {
        "9"@
    }
}

/// A number in decimal.
pub open spec fn decimal_text(n: nat) -> Seq<char>
    decreases n,
{
    if n < 10 {
        digit_text(n as int)
    } else {
        decimal_text(n / 10) + digit_text((n % 10) as int)
    }
}

/// The text of one decimal digit.
fn digit(d: u128) -> (r: &'static str)
    requires
        d < 10,
    ensures
        r@ == digit_text(d as int),
{
    if d == 0 {
        "0"
    } else if d == 1 {
        "1"
    } else if d == 2 {
        "2"
    } else if d == 3 {
        "3"
    } else if d == 4 {
        "4"
    } else if d == 5 {
        "5"
    } else if d == 6 {
        "6"
    } else if d == 7 {
        "7"
    } else if d == 8 {
        "8"
    } else {
        "9"
    }
}

/// A number in decimal.
pub fn decimal(n: u128) -> (r: String)
    ensures
        r@ == decimal_text(n as nat),
    decreases n,
{
    if n < 10 {
        digit(n).to_owned()
    } else {
        let mut text = decimal(n / 10);
        text.append(digit(n % 10));
        text
    }
}

/// What of a response body an error message quotes: the body without the
/// white space around it, cut after [`SNIPPET_MAX`] characters with an
/// ellipsis, or a placeholder where nothing is left.
pub open spec fn snippet_spec(body: Seq<char>) -> Seq<char> {
    let text = trimmed(body);
    if text.len() == 0 {
        "<empty body>"@
    } else if text.len() <= SNIPPET_MAX {
        text
    } else {
        text.subrange(0, SNIPPET_MAX as int) + "..."@
    }
}

/// Cuts a response body down to what an error message quotes: see [`snippet_spec`].
pub fn body_snippet(body: &str) -> (r: String)
    ensures
        r@ == snippet_spec(body@),
{
    let chars = chars_of(body);
    let (a, b) = trim_range(&chars, 0, chars.len());
    if a == b {
        "<empty body>".to_owned()
    } else if b - a <= SNIPPET_MAX {
        body.substring_char(a, b).to_owned()
    } else {
        assert(body@.subrange(a as int, a + SNIPPET_MAX) =~= body@.subrange(
            a as int,
            b as int,
        ).subrange(0, SNIPPET_MAX as int));
        join(body.substring_char(a, a + SNIPPET_MAX), "...")
    }
}

/// The message for a response whose status is no success: the status, then
/// what is quoted of the body.
pub open spec fn status_message(status: u16, body: Seq<char>) -> Seq<char> {
    "unexpected status: "@ + decimal_text(status as nat) + ": "@ + snippet_spec(body)
}

/// The error for a response whose status is no success: see [`status_message`].
pub fn status_error(status: u16, body: &str) -> (r: AppError)
    ensures
        r is Network,
        r.text() == status_message(status, body@),
{
    let mut text = "unexpected status: ".to_owned();
    text.append(decimal(status as u128).as_str());
    text.append(": ");
    text.append(body_snippet(body).as_str());
    AppError::Network(text)
}

/// The text that `String::from_utf8_lossy` makes of a body.
pub uninterp spec fn lossy_text(bytes: Seq<u8>) -> Seq<char>;

/// `String::from_utf8_lossy`: the bytes as text, with the replacement
/// character wherever they are not UTF-8.
#[verifier::external_body]
fn body_text(bytes: &[u8]) -> (r: String)
    ensures
        r@ == lossy_text(bytes@),
{
    String::from_utf8_lossy(bytes).into_owned()
}

/// What one attempt came to.
#[derive(Debug)]
pub enum Attempt {
    /// A response arrived, with this status and this body.
    Response { status: u16, body: Vec<u8> },
    /// No response arrived, or its body could not be read: the message says why.
    Transport(String),
}

/// Where a fetch stands between two attempts.
#[derive(Debug, Clone, Copy)]
pub struct RetryState {
    /// The attempts made so far.
    pub attempts: u32,
    /// The wait before the next attempt, in milliseconds.
    pub delay_ms: u64,
}

/// What follows an attempt.
#[derive(Debug)]
pub enum FetchStep {
    /// The body of a successful response.
    Done(Vec<u8>),
    /// Another attempt, after a wait of this many milliseconds.
    Retry { delay_ms: u64 },
    /// The fetch has failed for good.
    Fail(AppError),
}

/// The model of a [`FetchStep`].
pub enum StepView {
    Done(Seq<u8>),
    Retry { delay_ms: u64 },
    Fail { message: Seq<char> },
}

/// The message of the error that an attempt came to, and whether another
/// attempt may mend it; nothing for a success.
pub open spec fn attempt_failure(attempt: Attempt) -> Option<(Seq<char>, bool)> {
    match attempt {
        Attempt::Response { status, body } => if is_success_spec(status) {
            None
        } else {
            Some((status_message(status, lossy_text(body@)), is_retryable_spec(status)))
        },
        Attempt::Transport(msg) => Some((msg@, true)),
    }
}

/// The state after an attempt and what follows it: a success is done; a
/// failure that another attempt may mend is retried while attempts are
/// left, each wait twice the one before up to the cap; any other failure,
/// and the last one, is final.
pub open spec fn after_attempt_spec(state: RetryState, attempt: Attempt) -> (RetryState, StepView) {
    match attempt_failure(attempt) {
        None => (state, StepView::Done(attempt->body@)),
        Some(failure) => if failure.1 && state.attempts + 1 < MAX_ATTEMPTS {
            (
                RetryState {
                    attempts: (state.attempts + 1) as u32,
                    delay_ms: next_delay_spec(state.delay_ms),
                },
                StepView::Retry { delay_ms: state.delay_ms },
            )
        } else {
            (state, StepView::Fail { message: failure.0 })
        },
    }
}

impl View for FetchStep {
    type V = StepView;

    open spec fn view(&self) -> StepView {
        match self {
            FetchStep::Done(body) => StepView::Done(body@),
            FetchStep::Retry { delay_ms } => StepView::Retry { delay_ms: *delay_ms },
            FetchStep::Fail(e) => StepView::Fail { message: e.text() },
        }
    }
}

impl RetryState {
    /// Whether the state is one that a fetch can be in: another attempt is
    /// left, and the wait lies between the base and the cap.
    pub open spec fn well_formed(self) -> bool {
        self.attempts < MAX_ATTEMPTS && BASE_DELAY_MS <= self.delay_ms <= MAX_DELAY_MS
    }

    /// A fetch before its first attempt.
    pub fn new() -> (r: RetryState)
        ensures
            r.attempts == 0,
            r.delay_ms == BASE_DELAY_MS,
            r.well_formed(),
    {
        RetryState { attempts: 0, delay_ms: BASE_DELAY_MS }
    }

    /// Takes in what an attempt came to, and says what follows: see
    /// [`after_attempt_spec`]. A failure is always a network error, and
    /// there is no retry after the last attempt.
    pub fn after_attempt(&mut self, attempt: Attempt) -> (r: FetchStep)
        ensures
            (*final(self), r@) == after_attempt_spec(*old(self), attempt),
            r matches FetchStep::Fail(e) ==> e is Network,
            r is Retry ==> final(self).attempts == old(self).attempts + 1 < MAX_ATTEMPTS,
            old(self).well_formed() ==> final(self).well_formed(),
    {
        let (error, retryable) = match attempt {
            Attempt::Response { status, body } => {
                if is_success(status) {
                    return FetchStep::Done(body);
                }
                let text = body_text(body.as_slice());
                (status_error(status, text.as_str()), is_retryable_status(status))
            },
            Attempt::Transport(msg) => (AppError::Network(msg), true),
        };
        if retryable && self.attempts < MAX_ATTEMPTS - 1 {
            let delay_ms = self.delay_ms;
            self.attempts = self.attempts + 1;
            self.delay_ms = next_delay(delay_ms);
            FetchStep::Retry { delay_ms }
        } else {
            FetchStep::Fail(error)
        }
    }
}

/// The retries of one fetch are bounded: the attempt that uses up the last
/// one is never followed by another, whatever it came to, and the waits
/// never pass the cap.
pub proof fn lemma_retries_are_bounded(state: RetryState, attempt: Attempt)
    requires
        state.well_formed(),
    ensures
        state.attempts + 1 >= MAX_ATTEMPTS ==> !(after_attempt_spec(state, attempt).1 is Retry),
        after_attempt_spec(state, attempt).1 matches StepView::Retry { delay_ms } ==> delay_ms
            <= MAX_DELAY_MS && delay_ms <= after_attempt_spec(state, attempt).0.delay_ms,
        after_attempt_spec(state, attempt).0.well_formed(),
{
}

} // verus!
