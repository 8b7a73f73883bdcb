//! Session cookie headers.
//!
//! Builds the `Set-Cookie` values carrying the access token and the refresh
//! credential, and reads a named cookie back out of a `Cookie` request
//! header. Cookies are HTTP-only, same-site lax, and scoped to the whole
//! site; an expiring cookie carries its max-age in seconds.

use vstd::prelude::*;

use crate::numbers::dec_digits;
use crate::numbers::format_u64;
use crate::strutil::str_eq;
use crate::validation::is_ascii_space;

verus! {

/// The `Set-Cookie` value installing `value` under `key`.
pub open spec fn spec_set_cookie_header(
    key: Seq<char>,
    value: Seq<char>,
    max_age: Option<int>,
) -> Seq<char> {
    let base = key + "="@ + value + "; HttpOnly; SameSite=Lax; Path=/;"@;
    match max_age {
        None => base,
        Some(seconds) => base + " Max-Age="@ + dec_digits(seconds) + ";"@,
    }
}

/// The `Set-Cookie` value deleting the cookie under `key`.
pub open spec fn spec_delete_cookie_header(key: Seq<char>) -> Seq<char> {
    key + "=; HttpOnly; SameSite=Lax; Path=/; Max-Age=0;"@
}

pub fn format_set_cookie(key: &str, value: &str, max_age: Option<u64>) -> (r: String)
    ensures
        r@ == spec_set_cookie_header(
            key@,
            value@,
            match max_age {
                Some(s) => Some(s as int),
                None => None,
            },
        ),
{
    let mut cookie = String::from_str(key);
    cookie.append("=");
    cookie.append(value);
    cookie.append("; HttpOnly; SameSite=Lax; Path=/;");
    if let Some(seconds) = max_age {
        cookie.append(" Max-Age=");
        let num = format_u64(seconds);
        cookie.append(num.as_str());
        cookie.append(";");
        proof {
            assert(cookie@ =~= spec_set_cookie_header(key@, value@, Some(seconds as int)));
        }
    } else {
        proof {
            assert(cookie@ =~= spec_set_cookie_header(key@, value@, None));
        }
    }
    cookie
}

pub fn format_delete_cookie(key: &str) -> (r: String)
    ensures
        r@ == spec_delete_cookie_header(key@),
{
    let mut cookie = String::from_str(key);
    cookie.append("=; HttpOnly; SameSite=Lax; Path=/; Max-Age=0;");
    cookie
}

/// The number of consecutive characters other than ';' in [lo, hi).
pub open spec fn non_semi_run(s: Seq<char>, lo: int, hi: int) -> nat
    decreases hi - lo,
{
    if lo < 0 || lo >= hi || hi > s.len() {
        0
    } else if s[lo] == ';' {
        0
    } else {
        1 + non_semi_run(s, lo + 1, hi)
    }
}

/// The number of leading whitespace characters of the window [lo, hi).
pub open spec fn lead_ws(s: Seq<char>, lo: int, hi: int) -> nat
    decreases hi - lo,
{
    if lo < 0 || lo >= hi || hi > s.len() {
        0
    } else if is_ascii_space(s[lo]) {
        1 + lead_ws(s, lo + 1, hi)
    } else {
        0
    }
}

/// The number of trailing whitespace characters of the window [lo, hi).
pub open spec fn trail_ws(s: Seq<char>, lo: int, hi: int) -> nat
    decreases hi - lo,
{
    if lo < 0 || hi <= lo || hi > s.len() {
        0
    } else if is_ascii_space(s[hi - 1]) {
        1 + trail_ws(s, lo, hi - 1)
    } else {
        0
    }
}

/// The number of consecutive characters other than '=' in [lo, hi).
pub open spec fn non_eq_run(s: Seq<char>, lo: int, hi: int) -> nat
    decreases hi - lo,
{
    if lo < 0 || lo >= hi || hi > s.len() {
        0
    } else if s[lo] == '=' {
        0
    } else {
        1 + non_eq_run(s, lo + 1, hi)
    }
}

/// What one `;`-separated segment of a `Cookie` header yields for `key`:
/// the segment is trimmed of surrounding whitespace, split at its first
/// '=', and its value returned when the part before the '=' equals `key`.
pub open spec fn spec_segment_value(
    s: Seq<char>,
    lo: int,
    hi: int,
    key: Seq<char>,
) -> Option<Seq<char>> {
    let a = lo + lead_ws(s, lo, hi);
    let b = hi - trail_ws(s, lo, hi);
    if a >= b {
        None
    } else {
        let e = non_eq_run(s, a, b);
        if a + e == b {
            None
        } else if s.subrange(a, a + e) == key {
            Some(s.subrange(a + e + 1, b))
        } else {
            None
        }
    }
}

/// The value of the first matching cookie in the header suffix from `i`.
pub open spec fn spec_cookie_lookup(s: Seq<char>, i: int, key: Seq<char>) -> Option<Seq<char>>
    decreases s.len() - i,
{
    if !(0 <= i <= s.len()) {
        None
    } else {
        let run = non_semi_run(s, i, s.len() as int);
        let r = spec_segment_value(s, i, i + run, key);
        if r is Some {
            r
        } else if i + run >= s.len() {
            None
        } else {
            spec_cookie_lookup(s, i + run + 1, key)
        }
    }
}

/// What reading cookie `key` out of a `Cookie` header yields.
pub open spec fn spec_get_cookie(s: Seq<char>, key: Seq<char>) -> Option<Seq<char>> {
    spec_cookie_lookup(s, 0, key)
}

fn ch_is_space(c: char) -> (b: bool)
    ensures
        b == is_ascii_space(c),
{
    let v = c as u32;
    c == ' ' || c == '\t' || c == '\n' || c == '\r' || v == 11 || v == 12
}

/// Reads the named cookie out of a `Cookie` request header.
pub fn get_cookie(cookie_header: &str, key: &str) -> (r: Option<String>)
    ensures
        match r {
            Some(v) => spec_get_cookie(cookie_header@, key@) == Some(v@),
            None => spec_get_cookie(cookie_header@, key@) is None,
        },
{
    let n = cookie_header.unicode_len();
    let mut i: usize = 0;
    while i <= n
        invariant
            0 <= i <= n,
            n == cookie_header@.len(),
            spec_get_cookie(cookie_header@, key@) == spec_cookie_lookup(
                cookie_header@,
                i as int,
                key@,
            ),
        decreases n - i,
    {
        // the end of this segment
        let mut j = i;
        while j < n && cookie_header.get_char(j) != ';'
            invariant
                i <= j <= n,
                n == cookie_header@.len(),
                non_semi_run(cookie_header@, i as int, n as int) == (j - i) + non_semi_run(
                    cookie_header@,
                    j as int,
                    n as int,
                ),
            decreases n - j,
        {
            proof {
                assert(non_semi_run(cookie_header@, j as int, n as int) == 1 + non_semi_run(
                    cookie_header@,
                    j as int + 1,
                    n as int,
                ));
            }
            j = j + 1;
        }
        proof {
            assert(non_semi_run(cookie_header@, j as int, n as int) == 0);
            assert(non_semi_run(cookie_header@, i as int, n as int) == j - i);
        }
        // trim leading whitespace
        let mut a = i;
        while a < j && ch_is_space(cookie_header.get_char(a))
            invariant
                i <= a <= j <= n,
                n == cookie_header@.len(),
                lead_ws(cookie_header@, i as int, j as int) == (a - i) + lead_ws(
                    cookie_header@,
                    a as int,
                    j as int,
                ),
            decreases j - a,
        {
            proof {
                assert(lead_ws(cookie_header@, a as int, j as int) == 1 + lead_ws(cookie_header@, a as int + 1, j as int));
            }
            a = a + 1;
        }
        proof {
            assert(lead_ws(cookie_header@, a as int, j as int) == 0);
            assert(lead_ws(cookie_header@, i as int, j as int) == a - i);
        }
        // trim trailing whitespace
        let mut b = j;
        while b > i && ch_is_space(cookie_header.get_char(b - 1))
            invariant
                i <= b <= j <= n,
                n == cookie_header@.len(),
                trail_ws(cookie_header@, i as int, j as int) == (j - b) + trail_ws(
                    cookie_header@,
                    i as int,
                    b as int,
                ),
            decreases b,
        {
            proof {
                assert(trail_ws(cookie_header@, i as int, b as int) == 1 + trail_ws(cookie_header@, i as int, b as int - 1));
            }
            b = b - 1;
        }
        proof {
            assert(trail_ws(cookie_header@, i as int, b as int) == 0);
            assert(trail_ws(cookie_header@, i as int, j as int) == j - b);
        }
        if a < b {
            // split at the first '='
            let mut e = a;
            while e < b && cookie_header.get_char(e) != '='
                invariant
                    a <= e <= b <= n,
                    n == cookie_header@.len(),
                    non_eq_run(cookie_header@, a as int, b as int) == (e - a) + non_eq_run(
                        cookie_header@,
                        e as int,
                        b as int,
                    ),
                decreases b - e,
            {
                proof {
                    assert(non_eq_run(cookie_header@, e as int, b as int) == 1 + non_eq_run(
                        cookie_header@,
                        e as int + 1,
                        b as int,
                    ));
                }
                e = e + 1;
            }
            proof {
                assert(non_eq_run(cookie_header@, e as int, b as int) == 0);
                assert(non_eq_run(cookie_header@, a as int, b as int) == e - a);
            }
            if e < b {
                let k = cookie_header.substring_char(a, e);
                if str_eq(k, key) {
                    let v = cookie_header.substring_char(e + 1, b);
                    proof {
                        assert(spec_segment_value(cookie_header@, i as int, j as int, key@) == Some(
                            cookie_header@.subrange(e as int + 1, b as int),
                        ));
                    }
                    return Some(String::from_str(v));
                }
            }
        }
        proof {
            assert(spec_segment_value(cookie_header@, i as int, j as int, key@) is None);
        }
        if j == n {
            return None;
        }
        i = j + 1;
    }
    None
}

} // verus!
