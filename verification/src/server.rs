//! What the server does with a request: how long it waits, whether it works or makes a request
//! of its own, and what it answers.

use axum::http::{HeaderMap, HeaderValue};
use vstd::prelude::*;
use vstd::string::*;

use crate::headers::{empty_headers, header_values, lower, only, set_header};
use crate::text::{
    add_line, decimal, decimal_is_digits, decimal_text, signed_decimal, signed_text, texts,
};

verus! {

/// How the server spends its time on a request.
pub struct DelayPlan {
    /// What it says first.
    pub lines: Vec<String>,
    /// It keeps a processor busy before it waits.
    pub busy: bool,
    /// How long it waits, in milliseconds.
    pub delay_ms: u64,
    /// How long it waits once more, in milliseconds.
    pub jitter_ms: Option<u64>,
}

/// The answer of the server.
pub struct KeepaliveResponse {
    pub status: u16,
    pub headers: HeaderMap<HeaderValue>,
    pub body: String,
}

/// What is said when a request reaches the server.
pub open spec fn handling_text(req_num: usize, active: usize) -> Seq<char> {
    "🔄 Server handling request #"@ + decimal(req_num as nat) + " (active: "@ + decimal(
        (active + 1) as nat,
    ) + ")"@
}

/// Every third request waits long.
pub open spec fn waits_long(req_num: usize) -> bool {
    req_num % 3 == 0
}

/// The milliseconds for which the server waits when it delays its responses.
pub open spec fn induced_delay(req_num: usize) -> u64 {
    if waits_long(req_num) {
        1000
    } else {
        300
    }
}

/// What the server says before it delays a response.
pub open spec fn delay_lines(req_num: usize) -> Seq<Seq<char>> {
    let number = decimal(req_num as nat);
    let first = if waits_long(req_num) {
        "   [Server] Adding LONG delay for request #"@ + number
    } else {
        "   [Server] Adding normal delay for request #"@ + number
    };
    if req_num % 5 == 0 {
        seq![first, "   [Server] Adding CPU-intensive work for request #"@ + number]
    } else {
        seq![first]
    }
}

/// The sum of the numbers below `n`.
pub open spec fn sum_below(n: nat) -> nat
    decreases n,
{
    if n == 0 {
        0
    } else {
        sum_below((n - 1) as nat) + (n - 1) as nat
    }
}

/// An integer brought into the range of `i32` by multiples of its size.
pub open spec fn wrapped(n: int) -> int {
    (n + 0x8000_0000) % 0x1_0000_0000 - 0x8000_0000
}

/// The headers of the answer.
pub open spec fn response_headers(req_num: usize) -> Map<Seq<char>, Seq<Seq<u8>>> {
    map![
        "connection"@ => only("keep-alive"@),
        "cache-control"@ => only("no-cache, no-store"@),
        "pragma"@ => only("no-cache"@),
        "x-request-id"@ => only(decimal(req_num as nat)),
        "set-cookie"@ => only("session=test-value; Path=/; HttpOnly"@),
    ]
}

/// The address of a server as a URL.
pub open spec fn url_text(address: Seq<char>) -> Seq<char> {
    "http://"@ + address
}

/// Servers at distinct addresses have distinct URLs.
pub proof fn urls_are_distinct(a: Seq<char>, b: Seq<char>)
    requires
        url_text(a) == url_text(b),
    ensures
        a == b,
{
    let length = "http://"@.len() as int;
    assert(url_text(a).skip(length) =~= a);
    assert(url_text(b).skip(length) =~= b);
}

/// The address of a server as a URL.
pub fn server_url(address: &str) -> (url: String)
    ensures
        url@ == url_text(address@),
{
    let mut url: String = String::from_str("http://");
    url.append(address);
    url
}

/// What is said when a request reaches the server, while `active` others are being handled.
pub fn handling_line(req_num: usize, active: usize) -> (line: String)
    requires
        active < usize::MAX,
    ensures
        line@ == handling_text(req_num, active),
{
    let mut line: String = String::from_str("🔄 Server handling request #");
    line.append(decimal_text(req_num as u64).as_str());
    line.append(" (active: ");
    line.append(decimal_text((active + 1) as u64).as_str());
    line.append(")");
    line
}

/// How the server spends its time on a request.
pub fn delay_plan(req_num: usize, induce_delays: bool) -> (plan: DelayPlan)
    ensures
        induce_delays ==> {
            &&& texts(plan.lines@) == delay_lines(req_num)
            &&& plan.busy == (req_num % 5 == 0)
            &&& plan.delay_ms == induced_delay(req_num)
            &&& plan.delay_ms == if req_num % 3 == 0 {
                1000u64
            } else {
                300
            }
            &&& plan.jitter_ms == (if req_num % 4 == 0 {
                Some((induced_delay(req_num) / 2) as u64)
            } else {
                None
            })
        },
        !induce_delays ==> {
            &&& plan.lines@.len() == 0
            &&& !plan.busy
            &&& plan.delay_ms == 50
            &&& plan.jitter_ms is None
        },
{
    let mut lines: Vec<String> = Vec::new();
    if !induce_delays {
        return DelayPlan { lines, busy: false, delay_ms: 50, jitter_ms: None };
    }
    let number: String = decimal_text(req_num as u64);
    let long: bool = req_num % 3 == 0;
    let mut first: String = if long {
        String::from_str("   [Server] Adding LONG delay for request #")
    } else {
        String::from_str("   [Server] Adding normal delay for request #")
    };
    first.append(number.as_str());
    add_line(&mut lines, first);
    let delay_ms: u64 = if long {
        1000
    } else {
        300
    };
    let busy: bool = req_num % 5 == 0;
    if busy {
        let mut second: String = String::from_str(
            "   [Server] Adding CPU-intensive work for request #",
        );
        second.append(number.as_str());
        add_line(&mut lines, second);
    }
    assert(texts(lines@) =~= delay_lines(req_num));
    let jitter_ms: Option<u64> = if req_num % 4 == 0 {
        Some(delay_ms / 2)
    } else {
        None
    };
    DelayPlan { lines, busy, delay_ms, jitter_ms }
}

/// Twice the sum of the numbers below `n`.
proof fn sum_below_closed(n: nat)
    ensures
        2 * sum_below(n) == n * (n - 1),
    decreases n,
{
    if n > 0 {
        sum_below_closed((n - 1) as nat);
        assert(n * (n - 1) == (n - 1) * (n - 2) + 2 * (n - 1)) by (nonlinear_arith);
    } else {
        assert(n * (n - 1) == 0) by (nonlinear_arith)
            requires
                n == 0,
        ;
    }
}

/// Keeps a processor busy: adds up the numbers below half a million, in 32 bits.
pub fn busy_work() -> (sum: i32)
    ensures
        sum == wrapped(sum_below(500_000) as int),
        sum == 445_698_416,
{
    let mut sum: i32 = 0;
    let mut i: i32 = 0;
    while i < 500_000
        invariant
            0 <= i <= 500_000,
            sum == wrapped(sum_below(i as nat) as int),
        decreases 500_000 - i,
    {
        sum = sum.wrapping_add(i);
        i = i + 1;
    }
    proof {
        sum_below_closed(500_000);
    }
    sum
}

/// What the server says when it is done with its work.
pub fn busy_line(req_num: usize, sum: i32) -> (line: String)
    ensures
        line@ == "   [Server] Finished CPU work for request #"@ + decimal(req_num as nat)
            + " (sum: "@ + signed_decimal(sum as int) + ")"@,
{
    let mut line: String = String::from_str("   [Server] Finished CPU work for request #");
    line.append(decimal_text(req_num as u64).as_str());
    line.append(" (sum: ");
    line.append(signed_text(sum).as_str());
    line.append(")");
    line
}

/// What the server says when it makes a request of its own while it handles one; nothing where
/// it makes none.
pub fn loopback_line(req_num: usize, post_drop: bool) -> (line: Option<String>)
    ensures
        line is Some <==> post_drop && req_num % 3 == 0,
        line matches Some(line) ==> line@ == "   [Server] Making loopback request from request #"@
            + decimal(req_num as nat),
{
    if post_drop && req_num % 3 == 0 {
        let mut line: String = String::from_str(
            "   [Server] Making loopback request from request #",
        );
        line.append(decimal_text(req_num as u64).as_str());
        Some(line)
    } else {
        None
    }
}

/// The answer to a request.
pub fn keepalive_response(req_num: usize) -> (response: KeepaliveResponse)
    ensures
        response.status == 200,
        header_values(response.headers) == response_headers(req_num),
        response.body@ == "Response #"@ + decimal(req_num as nat) + " processed"@,
{
    proof {
        reveal_strlit("connection");
        reveal_strlit("cache-control");
        reveal_strlit("pragma");
        reveal_strlit("X-Request-Id");
        reveal_strlit("x-request-id");
        reveal_strlit("set-cookie");
        reveal_strlit("keep-alive");
        reveal_strlit("no-cache, no-store");
        reveal_strlit("no-cache");
        reveal_strlit("session=test-value; Path=/; HttpOnly");
        assert(lower("connection"@) =~= "connection"@);
        assert(lower("cache-control"@) =~= "cache-control"@);
        assert(lower("pragma"@) =~= "pragma"@);
        assert(lower("X-Request-Id"@) =~= "x-request-id"@);
        assert(lower("set-cookie"@) =~= "set-cookie"@);
        decimal_is_digits(req_num as nat);
    }
    let number: String = decimal_text(req_num as u64);
    let mut headers = empty_headers();
    set_header(&mut headers, "connection", "keep-alive");
    set_header(&mut headers, "cache-control", "no-cache, no-store");
    set_header(&mut headers, "pragma", "no-cache");
    set_header(&mut headers, "X-Request-Id", number.as_str());
    set_header(&mut headers, "set-cookie", "session=test-value; Path=/; HttpOnly");

    let mut body: String = String::from_str("Response #");
    body.append(number.as_str());
    body.append(" processed");
    KeepaliveResponse { status: 200, headers, body }
}

} // verus!
