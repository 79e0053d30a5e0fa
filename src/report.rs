//! The text of the log and status lines the engine publishes.
use vstd::prelude::*;
use vstd::string::*;

verus! {

pub open spec fn digit(d: nat) -> char {
    seq!['0', '1', '2', '3', '4', '5', '6', '7', '8', '9'][d as int % 10]
}

/// Decimal digits of `n`, most significant first, without leading zeros.
pub open spec fn decimal_of(n: nat) -> Seq<char>
    decreases n,
{
    if n < 10 {
        seq![digit(n)]
    } else {
        decimal_of(n / 10).push(digit(n % 10))
    }
}

/// `n` in decimal, with a leading `-` when negative.
pub open spec fn signed_of(n: int) -> Seq<char> {
    if n < 0 {
        "-"@ + decimal_of((-n) as nat)
    } else {
        decimal_of(n as nat)
    }
}

/// A duration in milliseconds shown in seconds, rounded to one decimal.
pub open spec fn seconds_of(ms: nat) -> Seq<char> {
    let tenths = ms / 100 + (if ms % 100 >= 50 {
        1nat
    } else {
        0nat
    });
    decimal_of(tenths / 10) + "."@ + seq![digit(tenths % 10)]
}

pub open spec fn quoted(s: Seq<char>) -> Seq<char> {
    "'"@ + s + "'"@
}

pub open spec fn cached_button_line(name: Seq<char>) -> Seq<char> {
    "Using Cached Button: "@ + quoted(name) + " (Instant Scan)"@
}

pub open spec fn found_button_line(name: Seq<char>, window: Seq<char>) -> Seq<char> {
    "Found button: "@ + quoted(name) + " in "@ + quoted(window)
}

pub open spec fn high_load_line(window: Seq<char>, ms: nat) -> Seq<char> {
    "High Load: "@ + quoted(window) + " took "@ + decimal_of(ms) + "ms"@
}

pub open spec fn not_found_line(target: Seq<char>) -> Seq<char> {
    "Target "@ + quoted(target) + " not found."@
}

pub open spec fn invoked_line(name: Seq<char>) -> Seq<char> {
    "Clicked "@ + quoted(name) + " (Invoke)"@
}

pub open spec fn clicked_line(name: Seq<char>, x: int, y: int) -> Seq<char> {
    "Clicked "@ + quoted(name) + " (Click) at ("@ + signed_of(x) + ", "@ + signed_of(y) + ")"@
}

pub open spec fn origin_line(name: Seq<char>) -> Seq<char> {
    "Skipping click: Invalid coordinates (0,0) for "@ + quoted(name)
}

pub open spec fn no_point_line(name: Seq<char>) -> Seq<char> {
    "Skipping click: No clickable point for "@ + quoted(name)
}

pub open spec fn backoff_line(ms: nat) -> Seq<char> {
    "Backoff (High Load) - Sleeping "@ + seconds_of(ms) + "s..."@
}

pub open spec fn sleeping_line(ms: nat) -> Seq<char> {
    "Sleeping ("@ + seconds_of(ms) + "s)..."@
}

/// The character of the decimal digit `d`.
pub fn digit_text(d: u64) -> (r: &'static str)
    requires
        d < 10,
    ensures
        r@ == seq![digit(d as nat)],
{
    proof {
        reveal_strlit("0");
        reveal_strlit("1");
        reveal_strlit("2");
        reveal_strlit("3");
        reveal_strlit("4");
        reveal_strlit("5");
        reveal_strlit("6");
        reveal_strlit("7");
        reveal_strlit("8");
        reveal_strlit("9");
    }
    match d {
        0 => "0",
        1 => "1",
        2 => "2",
        3 => "3",
        4 => "4",
        5 => "5",
        6 => "6",
        7 => "7",
        8 => "8",
        _ => "9",
    }
}

/// `n` in decimal.
pub fn decimal(n: u64) -> (r: String)
    ensures
        r@ == decimal_of(n as nat),
    decreases n,
{
    if n < 10 {
        String::from_str(digit_text(n))
    } else {
        let mut r = decimal(n / 10);
        r.append(digit_text(n % 10));
        r
    }
}

/// `n` in decimal, with a leading `-` when negative.
pub fn signed(n: i32) -> (r: String)
    ensures
        r@ == signed_of(n as int),
{
    if n < 0 {
        let m: u64 = (0 - (n as i64)) as u64;
        let mut r = String::from_str("-");
        let d = decimal(m);
        r.append(d.as_str());
        r
    } else {
        decimal(n as u64)
    }
}

/// A duration in milliseconds shown in seconds with one decimal.
pub fn seconds(ms: u64) -> (r: String)
    ensures
        r@ == seconds_of(ms as nat),
{
    let tenths: u64 = ms / 100 + if ms % 100 >= 50 {
        1
    } else {
        0
    };
    let mut r = decimal(tenths / 10);
    r.append(".");
    r.append(digit_text(tenths % 10));
    r
}

/// Joins three pieces of text.
pub fn join3(a: &str, b: &str, c: &str) -> (r: String)
    ensures
        r@ == a@ + b@ + c@,
{
    let mut r = String::from_str(a);
    r.append(b);
    r.append(c);
    r
}

/// `s` between single quotes.
pub fn quote(s: &str) -> (r: String)
    ensures
        r@ == quoted(s@),
{
    join3("'", s, "'")
}

pub fn cached_button_text(name: &str) -> (r: String)
    ensures
        r@ == cached_button_line(name@),
{
    join3("Using Cached Button: ", quote(name).as_str(), " (Instant Scan)")
}

pub fn found_button_text(name: &str, window: &str) -> (r: String)
    ensures
        r@ == found_button_line(name@, window@),
{
    let mut r = join3("Found button: ", quote(name).as_str(), " in ");
    r.append(quote(window).as_str());
    r
}

pub fn high_load_text(window: &str, ms: u64) -> (r: String)
    ensures
        r@ == high_load_line(window@, ms as nat),
{
    let mut r = join3("High Load: ", quote(window).as_str(), " took ");
    r.append(decimal(ms).as_str());
    r.append("ms");
    r
}

pub fn not_found_text(target: &str) -> (r: String)
    ensures
        r@ == not_found_line(target@),
{
    join3("Target ", quote(target).as_str(), " not found.")
}

pub fn invoked_text(name: &str) -> (r: String)
    ensures
        r@ == invoked_line(name@),
{
    join3("Clicked ", quote(name).as_str(), " (Invoke)")
}

pub fn clicked_text(name: &str, x: i32, y: i32) -> (r: String)
    ensures
        r@ == clicked_line(name@, x as int, y as int),
{
    let mut r = join3("Clicked ", quote(name).as_str(), " (Click) at (");
    r.append(signed(x).as_str());
    r.append(", ");
    r.append(signed(y).as_str());
    r.append(")");
    r
}

pub fn origin_text(name: &str) -> (r: String)
    ensures
        r@ == origin_line(name@),
{
    let mut r = String::from_str("Skipping click: Invalid coordinates (0,0) for ");
    r.append(quote(name).as_str());
    r
}

pub fn no_point_text(name: &str) -> (r: String)
    ensures
        r@ == no_point_line(name@),
{
    let mut r = String::from_str("Skipping click: No clickable point for ");
    r.append(quote(name).as_str());
    r
}

pub fn backoff_text(ms: u64) -> (r: String)
    ensures
        r@ == backoff_line(ms as nat),
{
    join3("Backoff (High Load) - Sleeping ", seconds(ms).as_str(), "s...")
}

pub fn sleeping_text(ms: u64) -> (r: String)
    ensures
        r@ == sleeping_line(ms as nat),
{
    join3("Sleeping (", seconds(ms).as_str(), "s)...")
}

} // verus!
