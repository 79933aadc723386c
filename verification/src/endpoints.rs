//! Where things live: the cache file path for a day, the service URLs, and
//! the session cookie that authenticates a request.

use vstd::prelude::*;
use vstd::string::StringExecFns;
use crate::strutil::{append_decimal, append_two_digits, dec_digits, two_digits};

verus! {

/// The cache file path for `day`: a fixed directory, the day number
/// zero-padded to two digits, and a fixed extension. The key has no year
/// dimension, so entries collide across years; that gap is knowingly kept.
pub open spec fn spec_path(day: int) -> Seq<char> {
    ".elvish/day"@ + two_digits(day) + ".ron"@
}

/// The URL of the input endpoint for `day` of `year`.
pub open spec fn spec_input_url(year: int, day: int) -> Seq<char> {
    "https://adventofcode.com/"@ + dec_digits(year) + "/day/"@ + dec_digits(day) + "/input"@
}

/// The URL of the puzzle page for `day` of `year`.
pub open spec fn spec_page_url(year: int, day: int) -> Seq<char> {
    "https://adventofcode.com/"@ + dec_digits(year) + "/day/"@ + dec_digits(day)
}

/// The value of the `Cookie` header that authenticates a request with the
/// session token.
pub open spec fn spec_session_cookie(token: Seq<char>) -> Seq<char> {
    "session="@ + token
}

/// The directory that holds the per-day cache files.
pub fn cache_dir() -> (r: String)
    ensures
        r@ == ".elvish"@,
{
    String::from_str(".elvish")
}

/// The cache file path for `day`.
pub fn path(day: u8) -> (r: String)
    requires
        1 <= day <= 25,
    ensures
        r@ == spec_path(day as int),
{
    let mut s = String::from_str(".elvish/day");
    append_two_digits(&mut s, day as u32);
    s.append(".ron");
    assert(s@ =~= spec_path(day as int));
    s
}

/// The URL of the input endpoint for `day` of `year`.
pub fn input_url(year: i16, day: u8) -> (r: String)
    requires
        year >= 0,
    ensures
        r@ == spec_input_url(year as int, day as int),
{
    let mut s = String::from_str("https://adventofcode.com/");
    append_decimal(&mut s, year as u32);
    s.append("/day/");
    append_decimal(&mut s, day as u32);
    s.append("/input");
    assert(s@ =~= spec_input_url(year as int, day as int));
    s
}

/// The URL of the puzzle page for `day` of `year`.
pub fn page_url(year: i16, day: u8) -> (r: String)
    requires
        year >= 0,
    ensures
        r@ == spec_page_url(year as int, day as int),
{
    let mut s = String::from_str("https://adventofcode.com/");
    append_decimal(&mut s, year as u32);
    s.append("/day/");
    append_decimal(&mut s, day as u32);
    assert(s@ =~= spec_page_url(year as int, day as int));
    s
}

/// The `Cookie` header value carrying the session token.
pub fn session_cookie(token: &str) -> (r: String)
    ensures
        r@ == spec_session_cookie(token@),
{
    let mut s = String::from_str("session=");
    s.append(token);
    s
}

} // verus!
