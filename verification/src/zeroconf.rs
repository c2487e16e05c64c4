//! The zero-conf query/reply protocol carried over generic custom peer
//! messages. An inbound message with the reserved query tag carries a JSON
//! object `{"method":"getzeroconfinfo","id":<any>}`; the reply echoes the id
//! and says whether the querying peer's whitelist entry grants zero-conf.
//!
//! The payload scanner below accepts exactly the well-formed JSON texts
//! given by the spec functions: a single top-level object whose member
//! values are valid JSON values through all nesting — strings with their
//! escape sequences validated (surrogate pairs and all), objects and arrays
//! with full member and element syntax, and scalars that are JSON numbers
//! or the literal names `true`, `false`, `null`. Member names and the
//! method value are compared after string-escape decoding, so
//! escape-written forms of `method`, `id` and `getzeroconfinfo` are
//! recognized. The raw text of the `id` value is echoed verbatim; for a
//! member name that repeats, the latest value wins.

use crate::peer::{normalize_peer_identity, pubkey_hex, pubkey_valid};
use crate::session::SessionError;
use crate::text::str_eq;
use crate::whitelist::Whitelist;
use vstd::prelude::*;
use vstd::string::StrSliceExecFns;
use vstd::string::StringExecFns;

verus! {

/// Type tag of an inbound zero-conf query message.
pub const ZERO_CONF_QUERY_TAG: u32 = 55443;

/// Type tag of an outbound zero-conf reply message.
pub const ZERO_CONF_REPLY_TAG: u32 = 55445;

/// JSON insignificant whitespace.
pub open spec fn is_json_ws(c: char) -> bool {
    c == ' ' || c == '\t' || c == '\n' || c == '\r'
}

/// A character that ends a bare scalar token.
pub open spec fn is_scalar_end(c: char) -> bool {
    c == ',' || c == '}' || c == ']' || is_json_ws(c)
}

/// First position at or after `i` holding a non-whitespace character (or the
/// end of the text).
pub open spec fn skip_ws(s: Seq<char>, i: int) -> int
    decreases s.len() - i,
{
    if 0 <= i < s.len() && is_json_ws(s[i]) {
        skip_ws(s, i + 1)
    } else {
        i
    }
}

/// Position just past the closing quote of a string literal whose opening
/// quote stands at `i - 1`; backslash escapes the following character.
pub open spec fn string_end(s: Seq<char>, i: int) -> Option<int>
    decreases s.len() - i,
{
    if i < 0 || i >= s.len() {
        None
    } else if s[i] == '"' {
        Some(i + 1)
    } else if s[i] == '\\' {
        if i + 1 < s.len() {
            string_end(s, i + 2)
        } else {
            None
        }
    } else {
        string_end(s, i + 1)
    }
}

/// First position at or after `i` that ends a bare scalar token.
pub open spec fn scalar_end(s: Seq<char>, i: int) -> int
    decreases s.len() - i,
{
    if 0 <= i < s.len() && !is_scalar_end(s[i]) {
        scalar_end(s, i + 1)
    } else {
        i
    }
}

/// A decimal digit.
pub open spec fn is_digit(c: char) -> bool {
    0x30 <= c as int <= 0x39
}

/// A hexadecimal digit.
pub open spec fn is_hex(c: char) -> bool {
    is_digit(c) || (0x61 <= c as int <= 0x66) || (0x41 <= c as int <= 0x46)
}

/// The value of a hexadecimal digit.
pub open spec fn hex_val(c: char) -> int {
    if is_digit(c) {
        c as int - 0x30
    } else if 0x61 <= c as int <= 0x66 {
        c as int - 0x57
    } else {
        c as int - 0x37
    }
}

/// The value of the four hexadecimal digits at `i`.
pub open spec fn hex_quad(t: Seq<char>, i: int) -> int {
    hex_val(t[i]) * 0x1000 + hex_val(t[i + 1]) * 0x100 + hex_val(t[i + 2]) * 0x10 + hex_val(
        t[i + 3],
    )
}

/// First position at or after `i` holding a non-digit character.
pub open spec fn digits_end(t: Seq<char>, i: int) -> int
    decreases t.len() - i,
{
    if 0 <= i < t.len() && is_digit(t[i]) {
        digits_end(t, i + 1)
    } else {
        i
    }
}

/// Whether `t` is a JSON number: an optional minus, an integer part with no
/// leading zero, an optional fraction, an optional exponent.
pub open spec fn is_json_number(t: Seq<char>) -> bool {
    let start: int = if t.len() > 0 && t[0] == '-' {
        1
    } else {
        0
    };
    if !(start < t.len() && is_digit(t[start])) {
        false
    } else {
        let ip = if t[start] == '0' {
            start + 1
        } else {
            digits_end(t, start)
        };
        let fp: int = if ip < t.len() && t[ip] == '.' {
            if ip + 1 < t.len() && is_digit(t[ip + 1]) {
                digits_end(t, ip + 1)
            } else {
                -1
            }
        } else {
            ip
        };
        if fp < 0 {
            false
        } else {
            let ep: int = if fp < t.len() && (t[fp] == 'e' || t[fp] == 'E') {
                let sp: int = if fp + 1 < t.len() && (t[fp + 1] == '+' || t[fp + 1] == '-') {
                    fp + 2
                } else {
                    fp + 1
                };
                if sp < t.len() && is_digit(t[sp]) {
                    digits_end(t, sp)
                } else {
                    -1
                }
            } else {
                fp
            };
            ep == t.len()
        }
    }
}

/// Whether a bare scalar token is a JSON value: a number or one of the three
/// literal names.
pub open spec fn is_json_scalar(t: Seq<char>) -> bool {
    t == "true"@ || t == "false"@ || t == "null"@ || is_json_number(t)
}

/// The code points of a text, for comparison with decoded string contents.
pub open spec fn code_points(s: Seq<char>) -> Seq<int> {
    s.map_values(|c: char| c as int)
}

/// Prepend one decoded code point to the rest of a decoding.
pub open spec fn prepend(c: int, rest: Option<Seq<int>>) -> Option<Seq<int>> {
    match rest {
        Some(r) => Some(seq![c] + r),
        None => None,
    }
}

/// Decoded code points of the contents of a JSON string literal (the text
/// between the quotes): `None` when the contents are not valid JSON string
/// text — an unknown or truncated escape, a `\u` escape with a lone
/// surrogate, or a raw control character.
pub open spec fn json_unescape(t: Seq<char>) -> Option<Seq<int>>
    decreases t.len(),
{
    if t.len() == 0 {
        Some(Seq::empty())
    } else if t[0] == '\\' {
        if t.len() < 2 {
            None
        } else if t[1] == '"' || t[1] == '\\' || t[1] == '/' {
            prepend(t[1] as int, json_unescape(t.skip(2)))
        } else if t[1] == 'b' {
            prepend(0x8, json_unescape(t.skip(2)))
        } else if t[1] == 'f' {
            prepend(0xC, json_unescape(t.skip(2)))
        } else if t[1] == 'n' {
            prepend(0xA, json_unescape(t.skip(2)))
        } else if t[1] == 'r' {
            prepend(0xD, json_unescape(t.skip(2)))
        } else if t[1] == 't' {
            prepend(0x9, json_unescape(t.skip(2)))
        } else if t[1] == 'u' {
            if !(t.len() >= 6 && is_hex(t[2]) && is_hex(t[3]) && is_hex(t[4]) && is_hex(t[5])) {
                None
            } else {
                let code = hex_quad(t, 2);
                if 0xD800 <= code < 0xDC00 {
                    if t.len() >= 12 && t[6] == '\\' && t[7] == 'u' && is_hex(t[8]) && is_hex(t[9])
                        && is_hex(t[10]) && is_hex(t[11]) {
                        let low = hex_quad(t, 8);
                        if 0xDC00 <= low < 0xE000 {
                            prepend(
                                0x10000 + (code - 0xD800) * 0x400 + (low - 0xDC00),
                                json_unescape(t.skip(12)),
                            )
                        } else {
                            None
                        }
                    } else {
                        None
                    }
                } else if 0xDC00 <= code < 0xE000 {
                    None
                } else {
                    prepend(code, json_unescape(t.skip(6)))
                }
            }
        } else {
            None
        }
    } else if (t[0] as int) < 0x20 {
        None
    } else {
        prepend(t[0] as int, json_unescape(t.skip(1)))
    }
}

/// Position just past the JSON value that starts at `i`: a string whose
/// contents decode, an object, an array, or a scalar that is a JSON number
/// or literal name. `None` when no valid JSON value starts at `i`.
pub open spec fn json_value_end(s: Seq<char>, i: int) -> Option<int>
    decreases s.len() - i, 0int,
    via json_value_end_decreases
{
    if i < 0 || i >= s.len() {
        None
    } else if s[i] == '"' {
        match string_end(s, i + 1) {
            Some(j) => if json_unescape(s.subrange(i + 1, j - 1)) is Some {
                Some(j)
            } else {
                None
            },
            None => None,
        }
    } else if s[i] == '{' {
        let j = skip_ws(s, i + 1);
        if j < s.len() && s[j] == '}' {
            Some(j + 1)
        } else {
            object_members(s, j)
        }
    } else if s[i] == '[' {
        let j = skip_ws(s, i + 1);
        if j < s.len() && s[j] == ']' {
            Some(j + 1)
        } else {
            array_elements(s, j)
        }
    } else if is_scalar_end(s[i]) || s[i] == ':' {
        None
    } else {
        if is_json_scalar(s.subrange(i, scalar_end(s, i))) {
            Some(scalar_end(s, i))
        } else {
            None
        }
    }
}

#[via_fn]
proof fn json_value_end_decreases(s: Seq<char>, i: int) {
    if 0 <= i < s.len() && (s[i] == '{' || s[i] == '[') {
        lemma_skip_ws_bounds(s, i + 1);
    }
}

/// Position just past the `}` that closes the one or more object members
/// starting at `i` (expected at a member name). Every value returned by a
/// recursive scan spans forward; the guard on `e` states that, keeping the
/// recursion visibly bounded.
pub open spec fn object_members(s: Seq<char>, i: int) -> Option<int>
    decreases s.len() - i, 2int,
    via object_members_decreases
{
    if !(0 <= i < s.len() && s[i] == '"') {
        None
    } else {
        match string_end(s, i + 1) {
            None => None,
            Some(j) => {
                if json_unescape(s.subrange(i + 1, j - 1)) is None {
                    None
                } else {
                    let k = skip_ws(s, j);
                    if !(k < s.len() && s[k] == ':') {
                        None
                    } else {
                        let v = skip_ws(s, k + 1);
                        match json_value_end(s, v) {
                            None => None,
                            Some(e) => {
                                if !(v < e <= s.len()) {
                                    None
                                } else {
                                    let t = skip_ws(s, e);
                                    if t < s.len() && s[t] == ',' {
                                        object_members(s, skip_ws(s, t + 1))
                                    } else if t < s.len() && s[t] == '}' {
                                        Some(t + 1)
                                    } else {
                                        None
                                    }
                                }
                            },
                        }
                    }
                }
            },
        }
    }
}

#[via_fn]
proof fn object_members_decreases(s: Seq<char>, i: int) {
    assert forall|x: int| 0 <= x <= s.len() implies x <= #[trigger] skip_ws(s, x) <= s.len() by {
        lemma_skip_ws_bounds(s, x);
    }
    if 0 <= i < s.len() && s[i] == '"' && string_end(s, i + 1) is Some {
        lemma_string_end_bounds(s, i + 1);
    }
}

/// Position just past the `]` that closes the one or more array elements
/// starting at `i` (expected at a value).
pub open spec fn array_elements(s: Seq<char>, i: int) -> Option<int>
    decreases s.len() - i, 1int,
    via array_elements_decreases
{
    match json_value_end(s, i) {
        None => None,
        Some(e) => {
            if !(i < e <= s.len()) {
                None
            } else {
                let t = skip_ws(s, e);
                if t < s.len() && s[t] == ',' {
                    array_elements(s, skip_ws(s, t + 1))
                } else if t < s.len() && s[t] == ']' {
                    Some(t + 1)
                } else {
                    None
                }
            }
        },
    }
}

#[via_fn]
proof fn array_elements_decreases(s: Seq<char>, i: int) {
    assert forall|x: int| 0 <= x <= s.len() implies x <= #[trigger] skip_ws(s, x) <= s.len() by {
        lemma_skip_ws_bounds(s, x);
    }
}

/// The members of the query object, read from the position `i` of a member
/// name onward. `method_ok` and `id` carry what the earlier members
/// established; the result is the raw text of the final `id` value, provided
/// every member is well-formed, the final `method` value is a string reading
/// `getzeroconfinfo`, and the object is followed by nothing but whitespace.
/// Member names and the method value are compared after string-escape
/// decoding.
pub open spec fn members_from(
    s: Seq<char>,
    i: int,
    method_ok: bool,
    id: Option<Seq<char>>,
) -> Option<Seq<char>>
    decreases s.len() - i,
    via members_from_decreases
{
    if i < 0 || i >= s.len() || s[i] != '"' {
        None
    } else {
        match string_end(s, i + 1) {
            None => None,
            Some(j) => {
                let key = json_unescape(s.subrange(i + 1, j - 1));
                let k = skip_ws(s, j);
                if key is None || !(k < s.len() && s[k] == ':') {
                    None
                } else {
                    let v = skip_ws(s, k + 1);
                    match json_value_end(s, v) {
                        None => None,
                        Some(e) => {
                            if !(v < e <= s.len()) {
                                None
                            } else {
                                let raw = s.subrange(v, e);
                                let method_ok2 = if key == Some(code_points("method"@)) {
                                    s[v] == '"' && json_unescape(s.subrange(v + 1, e - 1)) == Some(
                                        code_points("getzeroconfinfo"@),
                                    )
                                } else {
                                    method_ok
                                };
                                let id2 = if key == Some(code_points("id"@)) {
                                    Some(raw)
                                } else {
                                    id
                                };
                                let t = skip_ws(s, e);
                                if t < s.len() && s[t] == ',' {
                                    members_from(s, skip_ws(s, t + 1), method_ok2, id2)
                                } else if t < s.len() && s[t] == '}' && skip_ws(s, t + 1)
                                    == s.len() {
                                    if method_ok2 {
                                        id2
                                    } else {
                                        None
                                    }
                                } else {
                                    None
                                }
                            }
                        },
                    }
                }
            },
        }
    }
}

#[via_fn]
proof fn members_from_decreases(s: Seq<char>, i: int, method_ok: bool, id: Option<Seq<char>>) {
    if 0 <= i < s.len() && s[i] == '"' {
        if let Some(j) = string_end(s, i + 1) {
            lemma_string_end_bounds(s, i + 1);
            let k = skip_ws(s, j);
            lemma_skip_ws_bounds(s, j);
            if k < s.len() && s[k] == ':' {
                let v = skip_ws(s, k + 1);
                lemma_skip_ws_bounds(s, k + 1);
                if let Some(e) = json_value_end(s, v) {
                    if v < e <= s.len() {
                        let t = skip_ws(s, e);
                        lemma_skip_ws_bounds(s, e);
                        if t < s.len() && s[t] == ',' {
                            lemma_skip_ws_bounds(s, t + 1);
                        }
                    }
                }
            }
        }
    }
}

/// The raw text of the `id` value of a well-formed zero-conf query payload:
/// a single top-level JSON object whose `method` member is exactly
/// `"getzeroconfinfo"` and which names an `id` member.
pub open spec fn parse_query(s: Seq<char>) -> Option<Seq<char>> {
    let i = skip_ws(s, 0);
    if i < s.len() && s[i] == '{' {
        members_from(s, skip_ws(s, i + 1), false, None)
    } else {
        None
    }
}

/// `skip_ws` stays within the text and never moves backward.
proof fn lemma_skip_ws_bounds(s: Seq<char>, i: int)
    requires
        0 <= i <= s.len(),
    ensures
        i <= skip_ws(s, i) <= s.len(),
    decreases s.len() - i,
{
    if i < s.len() && is_json_ws(s[i]) {
        lemma_skip_ws_bounds(s, i + 1);
    }
}

/// A found string end lies past its opening position, within the text.
proof fn lemma_string_end_bounds(s: Seq<char>, i: int)
    requires
        string_end(s, i) is Some,
    ensures
        i < string_end(s, i).unwrap() <= s.len(),
    decreases s.len() - i,
{
    if 0 <= i < s.len() {
        if s[i] == '"' {
        } else if s[i] == '\\' {
            if i + 1 < s.len() {
                lemma_string_end_bounds(s, i + 2);
            }
        } else {
            lemma_string_end_bounds(s, i + 1);
        }
    }
}

/// A scalar token ends within the text, at or past its start.
proof fn lemma_scalar_end_bounds(s: Seq<char>, i: int)
    requires
        0 <= i <= s.len(),
    ensures
        i <= scalar_end(s, i) <= s.len(),
    decreases s.len() - i,
{
    if i < s.len() && !is_scalar_end(s[i]) {
        lemma_scalar_end_bounds(s, i + 1);
    }
}

fn is_ws_char(c: char) -> (r: bool)
    ensures
        r == is_json_ws(c),
{
    c == ' ' || c == '\t' || c == '\n' || c == '\r'
}

fn is_scalar_end_char(c: char) -> (r: bool)
    ensures
        r == is_scalar_end(c),
{
    c == ',' || c == '}' || c == ']' || is_ws_char(c)
}

fn skip_ws_at(s: &str, n: usize, i: usize) -> (r: usize)
    requires
        n == s@.len(),
        i <= n,
    ensures
        r == skip_ws(s@, i as int),
        i <= r <= n,
{
    let mut p = i;
    while p < n && is_ws_char(s.get_char(p))
        invariant
            n == s@.len(),
            i <= p <= n,
            skip_ws(s@, i as int) == skip_ws(s@, p as int),
        decreases n - p,
    {
        p += 1;
    }
    p
}

fn string_end_at(s: &str, n: usize, i: usize) -> (r: Option<usize>)
    requires
        n == s@.len(),
        i <= n,
    ensures
        match r {
            Some(j) => string_end(s@, i as int) == Some(j as int) && i < j <= n,
            None => string_end(s@, i as int) is None,
        },
{
    let mut p = i;
    while p < n
        invariant
            n == s@.len(),
            i <= p <= n,
            string_end(s@, i as int) == string_end(s@, p as int),
        decreases n - p,
    {
        let c = s.get_char(p);
        if c == '"' {
            proof {
                lemma_string_end_bounds(s@, i as int);
            }
            return Some(p + 1);
        } else if c == '\\' {
            if p + 1 < n {
                p += 2;
            } else {
                return None;
            }
        } else {
            p += 1;
        }
    }
    None
}

fn scalar_end_at(s: &str, n: usize, i: usize) -> (r: usize)
    requires
        n == s@.len(),
        i <= n,
    ensures
        r == scalar_end(s@, i as int),
        i <= r <= n,
{
    let mut p = i;
    while p < n && !is_scalar_end_char(s.get_char(p))
        invariant
            n == s@.len(),
            i <= p <= n,
            scalar_end(s@, i as int) == scalar_end(s@, p as int),
        decreases n - p,
    {
        p += 1;
    }
    p
}

fn json_value_end_at(s: &str, n: usize, i: usize) -> (r: Option<usize>)
    requires
        n == s@.len(),
        i <= n,
    ensures
        match r {
            Some(j) => json_value_end(s@, i as int) == Some(j as int) && i < j <= n,
            None => json_value_end(s@, i as int) is None,
        },
    decreases n - i, 0int,
{
    if i >= n {
        return None;
    }
    let c = s.get_char(i);
    if c == '"' {
        let j = match string_end_at(s, n, i + 1) {
            Some(j) => j,
            None => {
                return None;
            },
        };
        proof {
            lemma_string_end_bounds(s@, i as int + 1);
        }
        match unescape_decode(s.substring_char(i + 1, j - 1)) {
            Some(_) => Some(j),
            None => None,
        }
    } else if c == '{' {
        let j = skip_ws_at(s, n, i + 1);
        if j < n && s.get_char(j) == '}' {
            Some(j + 1)
        } else {
            object_members_at(s, n, j)
        }
    } else if c == '[' {
        let j = skip_ws_at(s, n, i + 1);
        if j < n && s.get_char(j) == ']' {
            Some(j + 1)
        } else {
            array_elements_at(s, n, j)
        }
    } else if is_scalar_end_char(c) || c == ':' {
        None
    } else {
        let e = scalar_end_at(s, n, i);
        proof {
            lemma_scalar_end_bounds(s@, i as int + 1);
            assert(scalar_end(s@, i as int) == scalar_end(s@, i as int + 1));
        }
        if is_json_scalar_token(s.substring_char(i, e)) {
            Some(e)
        } else {
            None
        }
    }
}

fn object_members_at(s: &str, n: usize, i: usize) -> (r: Option<usize>)
    requires
        n == s@.len(),
        i <= n,
    ensures
        match r {
            Some(j) => object_members(s@, i as int) == Some(j as int) && i < j <= n,
            None => object_members(s@, i as int) is None,
        },
    decreases n - i, 2int,
{
    if i >= n || s.get_char(i) != '"' {
        return None;
    }
    let j = match string_end_at(s, n, i + 1) {
        Some(j) => j,
        None => {
            return None;
        },
    };
    proof {
        lemma_string_end_bounds(s@, i as int + 1);
    }
    if unescape_decode(s.substring_char(i + 1, j - 1)).is_none() {
        return None;
    }
    let k = skip_ws_at(s, n, j);
    if !(k < n && s.get_char(k) == ':') {
        return None;
    }
    let v = skip_ws_at(s, n, k + 1);
    let e = match json_value_end_at(s, n, v) {
        Some(e) => e,
        None => {
            return None;
        },
    };
    let t = skip_ws_at(s, n, e);
    if t < n && s.get_char(t) == ',' {
        object_members_at(s, n, skip_ws_at(s, n, t + 1))
    } else if t < n && s.get_char(t) == '}' {
        Some(t + 1)
    } else {
        None
    }
}

fn array_elements_at(s: &str, n: usize, i: usize) -> (r: Option<usize>)
    requires
        n == s@.len(),
        i <= n,
    ensures
        match r {
            Some(j) => array_elements(s@, i as int) == Some(j as int) && i < j <= n,
            None => array_elements(s@, i as int) is None,
        },
    decreases n - i, 1int,
{
    let e = match json_value_end_at(s, n, i) {
        Some(e) => e,
        None => {
            return None;
        },
    };
    let t = skip_ws_at(s, n, e);
    if t < n && s.get_char(t) == ',' {
        array_elements_at(s, n, skip_ws_at(s, n, t + 1))
    } else if t < n && s.get_char(t) == ']' {
        Some(t + 1)
    } else {
        None
    }
}

fn is_digit_char(c: char) -> (r: bool)
    ensures
        r == is_digit(c),
{
    let u = c as u32;
    0x30 <= u && u <= 0x39
}

fn digits_end_at(t: &str, n: usize, i: usize) -> (r: usize)
    requires
        n == t@.len(),
        i <= n,
    ensures
        r == digits_end(t@, i as int),
        i <= r <= n,
{
    let mut p = i;
    while p < n && is_digit_char(t.get_char(p))
        invariant
            n == t@.len(),
            i <= p <= n,
            digits_end(t@, i as int) == digits_end(t@, p as int),
        decreases n - p,
    {
        p += 1;
    }
    p
}

fn is_json_number_token(t: &str) -> (r: bool)
    ensures
        r == is_json_number(t@),
{
    let n = t.unicode_len();
    let start: usize = if n > 0 && t.get_char(0) == '-' {
        1
    } else {
        0
    };
    if !(start < n && is_digit_char(t.get_char(start))) {
        return false;
    }
    let ip = if t.get_char(start) == '0' {
        start + 1
    } else {
        digits_end_at(t, n, start)
    };
    let fp = if ip < n && t.get_char(ip) == '.' {
        if ip + 1 < n && is_digit_char(t.get_char(ip + 1)) {
            digits_end_at(t, n, ip + 1)
        } else {
            return false;
        }
    } else {
        ip
    };
    let ep = if fp < n && (t.get_char(fp) == 'e' || t.get_char(fp) == 'E') {
        let sp = if fp + 1 < n && (t.get_char(fp + 1) == '+' || t.get_char(fp + 1) == '-') {
            fp + 2
        } else {
            fp + 1
        };
        if sp < n && is_digit_char(t.get_char(sp)) {
            digits_end_at(t, n, sp)
        } else {
            return false;
        }
    } else {
        fp
    };
    ep == n
}

fn is_json_scalar_token(t: &str) -> (r: bool)
    ensures
        r == is_json_scalar(t@),
{
    str_eq(t, "true") || str_eq(t, "false") || str_eq(t, "null") || is_json_number_token(t)
}

fn hex_val_of(c: char) -> (r: Option<u32>)
    ensures
        match r {
            Some(v) => is_hex(c) && v == hex_val(c) && v < 0x10,
            None => !is_hex(c),
        },
{
    let u = c as u32;
    if 0x30 <= u && u <= 0x39 {
        Some(u - 0x30)
    } else if 0x61 <= u && u <= 0x66 {
        Some(u - 0x57)
    } else if 0x41 <= u && u <= 0x46 {
        Some(u - 0x37)
    } else {
        None
    }
}

fn hex_quad_at(t: &str, i: usize) -> (r: Option<u32>)
    requires
        i + 4 <= t@.len(),
        t@.len() <= usize::MAX,
    ensures
        match r {
            Some(h) => is_hex(t@[i as int]) && is_hex(t@[i + 1]) && is_hex(t@[i + 2]) && is_hex(
                t@[i + 3],
            ) && h == hex_quad(t@, i as int) && h < 0x10000,
            None => !(is_hex(t@[i as int]) && is_hex(t@[i + 1]) && is_hex(t@[i + 2]) && is_hex(
                t@[i + 3],
            )),
        },
{
    let h0 = match hex_val_of(t.get_char(i)) {
        Some(v) => v,
        None => {
            return None;
        },
    };
    let h1 = match hex_val_of(t.get_char(i + 1)) {
        Some(v) => v,
        None => {
            return None;
        },
    };
    let h2 = match hex_val_of(t.get_char(i + 2)) {
        Some(v) => v,
        None => {
            return None;
        },
    };
    let h3 = match hex_val_of(t.get_char(i + 3)) {
        Some(v) => v,
        None => {
            return None;
        },
    };
    Some(h0 * 0x1000 + h1 * 0x100 + h2 * 0x10 + h3)
}

/// Concatenate decoded code points with the rest of a decoding.
spec fn opt_concat(a: Seq<int>, rest: Option<Seq<int>>) -> Option<Seq<int>> {
    match rest {
        Some(r) => Some(a + r),
        None => None,
    }
}

/// The code points a decoded `u32` vector denotes.
spec fn cps_of(v: Seq<u32>) -> Seq<int> {
    v.map_values(|x: u32| x as int)
}

/// Decode JSON string contents to code points; `None` exactly when the spec
/// decoding rejects them.
fn unescape_decode(t: &str) -> (r: Option<Vec<u32>>)
    ensures
        match r {
            Some(v) => json_unescape(t@) == Some(cps_of(v@)),
            None => json_unescape(t@) is None,
        },
{
    let n = t.unicode_len();
    let mut p: usize = 0;
    let mut out: Vec<u32> = Vec::new();
    proof {
        assert(t@.skip(0) =~= t@);
        assert(cps_of(out@) =~= Seq::<int>::empty());
    }
    while p < n
        invariant
            n == t@.len(),
            p <= n,
            json_unescape(t@) == opt_concat(cps_of(out@), json_unescape(t@.skip(p as int))),
        decreases n - p,
    {
        let ghost u = t@.skip(p as int);
        proof {
            assert(u.len() == n - p);
            assert forall|k: int| 0 <= k < u.len() implies u[k] == t@[p + k] by {}
        }
        let c = t.get_char(p);
        let cp: u32;
        let step: usize;
        if c == '\\' {
            if p + 1 >= n {
                return None;
            }
            let e = t.get_char(p + 1);
            if e == '"' || e == '\\' || e == '/' {
                cp = e as u32;
                step = 2;
            } else if e == 'b' {
                cp = 0x8;
                step = 2;
            } else if e == 'f' {
                cp = 0xC;
                step = 2;
            } else if e == 'n' {
                cp = 0xA;
                step = 2;
            } else if e == 'r' {
                cp = 0xD;
                step = 2;
            } else if e == 't' {
                cp = 0x9;
                step = 2;
            } else if e == 'u' {
                if n - p < 6 {
                    return None;
                }
                let h = match hex_quad_at(t, p + 2) {
                    Some(h) => h,
                    None => {
                        return None;
                    },
                };
                if 0xD800 <= h && h < 0xDC00 {
                    if n - p < 12 || t.get_char(p + 6) != '\\' || t.get_char(p + 7) != 'u' {
                        return None;
                    }
                    let low = match hex_quad_at(t, p + 8) {
                        Some(low) => low,
                        None => {
                            return None;
                        },
                    };
                    if !(0xDC00 <= low && low < 0xE000) {
                        return None;
                    }
                    cp = 0x10000 + (h - 0xD800) * 0x400 + (low - 0xDC00);
                    step = 12;
                } else if 0xDC00 <= h && h < 0xE000 {
                    return None;
                } else {
                    cp = h;
                    step = 6;
                }
            } else {
                return None;
            }
        } else if (c as u32) < 0x20 {
            return None;
        } else {
            cp = c as u32;
            step = 1;
        }
        proof {
            assert(u.skip(step as int) =~= t@.skip((p + step) as int));
            assert(json_unescape(u) == prepend(cp as int, json_unescape(u.skip(step as int))));
            assert(cps_of(out@.push(cp)) =~= cps_of(out@) + seq![cp as int]);
            assert(cps_of(out@) + (seq![cp as int] + json_unescape(u.skip(step as int)).unwrap())
                =~= cps_of(out@.push(cp)) + json_unescape(u.skip(step as int)).unwrap());
        }
        out.push(cp);
        p += step;
    }
    proof {
        assert(t@.skip(p as int) =~= Seq::<char>::empty());
        assert(cps_of(out@) + Seq::<int>::empty() =~= cps_of(out@));
    }
    Some(out)
}

/// Whether decoded code points read exactly as the given text.
fn cps_eq(v: &Vec<u32>, lit: &str) -> (r: bool)
    ensures
        r == (cps_of(v@) == code_points(lit@)),
{
    let n = lit.unicode_len();
    if v.len() != n {
        proof {
            assert(cps_of(v@).len() == v@.len());
            assert(code_points(lit@).len() == lit@.len());
        }
        return false;
    }
    let mut i: usize = 0;
    while i < n
        invariant
            n == lit@.len(),
            n == v@.len(),
            i <= n,
            forall|k: int| 0 <= k < i ==> cps_of(v@)[k] == code_points(lit@)[k],
        decreases n - i,
    {
        if v[i] != (lit.get_char(i) as u32) {
            proof {
                assert(cps_of(v@)[i as int] != code_points(lit@)[i as int]);
            }
            return false;
        }
        i += 1;
    }
    proof {
        assert(cps_of(v@) =~= code_points(lit@));
    }
    true
}

/// The view of the id text held so far while the members are read.
spec fn id_text_view(id: Option<String>) -> Option<Seq<char>> {
    match id {
        Some(t) => Some(t@),
        None => None,
    }
}

/// Scan a query payload: the raw text of its `id` value, if the payload is a
/// well-formed `getzeroconfinfo` query object.
pub fn parse_query_payload(s: &str) -> (r: Option<String>)
    ensures
        match r {
            Some(id) => parse_query(s@) == Some(id@),
            None => parse_query(s@) is None,
        },
{
    let n = s.unicode_len();
    let start = skip_ws_at(s, n, 0);
    if !(start < n && s.get_char(start) == '{') {
        return None;
    }
    let mut pos = skip_ws_at(s, n, start + 1);
    let mut method_ok = false;
    let mut id: Option<String> = None;
    loop
        invariant
            n == s@.len(),
            pos <= n,
            parse_query(s@) == members_from(s@, pos as int, method_ok, id_text_view(id)),
        decreases n - pos,
    {
        if pos >= n || s.get_char(pos) != '"' {
            return None;
        }
        let j = match string_end_at(s, n, pos + 1) {
            Some(j) => j,
            None => {
                return None;
            },
        };
        let key_cps = match unescape_decode(s.substring_char(pos + 1, j - 1)) {
            Some(key_cps) => key_cps,
            None => {
                return None;
            },
        };
        let key_is_method = cps_eq(&key_cps, "method");
        let key_is_id = cps_eq(&key_cps, "id");
        let k = skip_ws_at(s, n, j);
        if !(k < n && s.get_char(k) == ':') {
            return None;
        }
        let v = skip_ws_at(s, n, k + 1);
        let e = match json_value_end_at(s, n, v) {
            Some(e) => e,
            None => {
                return None;
            },
        };
        let c_v = s.get_char(v);
        let mut method_value_ok = false;
        if c_v == '"' {
            proof {
                assert(json_value_end(s@, v as int) == Some(e as int));
                assert(string_end(s@, v as int + 1) == Some(e as int));
                lemma_string_end_bounds(s@, v as int + 1);
            }
            let contents = match unescape_decode(s.substring_char(v + 1, e - 1)) {
                Some(contents) => contents,
                None => {
                    // A string value found by the scan always decodes.
                    proof {
                        assert(false);
                    }
                    return None;
                },
            };
            method_value_ok = cps_eq(&contents, "getzeroconfinfo");
        }
        if key_is_method {
            method_ok = c_v == '"' && method_value_ok;
        }
        if key_is_id {
            id = Some(s.substring_char(v, e).to_owned());
        }
        let t = skip_ws_at(s, n, e);
        if t < n && s.get_char(t) == ',' {
            pos = skip_ws_at(s, n, t + 1);
        } else if t < n && s.get_char(t) == '}' {
            let close = skip_ws_at(s, n, t + 1);
            if close == n && method_ok {
                return id;
            } else {
                return None;
            }
        } else {
            return None;
        }
    }
}

/// A generic custom peer message, inbound or outbound: an integer type tag,
/// the raw peer identity bytes, and the payload text.
pub struct CustomMessage {
    pub type_tag: u32,
    pub peer: Vec<u8>,
    pub payload: String,
}

/// Mathematical content of a `CustomMessage`.
pub struct CustomMessageView {
    pub type_tag: u32,
    pub peer: Seq<u8>,
    pub payload: Seq<char>,
}

impl View for CustomMessage {
    type V = CustomMessageView;

    open spec fn view(&self) -> CustomMessageView {
        CustomMessageView { type_tag: self.type_tag, peer: self.peer@, payload: self.payload@ }
    }
}

/// Whether the whitelist grants zero-conf to an identity: true exactly when
/// its entry is present and equals zero.
pub open spec fn spec_allows_zero_conf(w: Map<Seq<char>, i8>, peer_identity: Seq<char>) -> bool {
    w.contains_key(peer_identity) && w[peer_identity] == 0
}

/// The reply payload: the echoed id and the zero-conf verdict.
pub open spec fn reply_payload(id: Seq<char>, allows: bool) -> Seq<char> {
    "{\"id\":"@ + id + ",\"result\":{\"allows_your_zeroconf\":"@ + (if allows {
        "true"@
    } else {
        "false"@
    }) + "}}"@
}

/// Serialize the reply payload for an echoed id and a zero-conf verdict.
pub fn build_reply_payload(id: &str, allows: bool) -> (r: String)
    ensures
        r@ == reply_payload(id@, allows),
{
    let mut out = String::from_str("{\"id\":");
    out.append(id);
    out.append(",\"result\":{\"allows_your_zeroconf\":");
    if allows {
        out.append("true");
    } else {
        out.append("false");
    }
    out.append("}}");
    proof {
        assert(out@ =~= reply_payload(id@, allows));
    }
    out
}

/// The two sessions agree: a peer is told `true` exactly when a channel-open
/// request from it would be accepted as zero-conf by the decision engine.
pub proof fn lemma_reply_matches_decision(
    w: Map<Seq<char>, i8>,
    peer_identity: Seq<char>,
    pending: Seq<u8>,
)
    ensures
        spec_allows_zero_conf(w, peer_identity) == crate::decision::spec_decide(
            crate::decision::spec_confs_for(w, peer_identity),
            pending,
        ).zero_conf,
{
}

/// Filter one inbound custom message and produce the reply it calls for:
/// `Ok(None)` for a message that is not a well-formed zero-conf query,
/// `Ok(Some(reply))` for a query from a well-formed peer identity, and the
/// session-fatal error for a query whose peer identity bytes do not decode.
pub fn handle_custom_message(w: &Whitelist, msg: &CustomMessage) -> (r: Result<
    Option<CustomMessage>,
    SessionError,
>)
    ensures
        msg.type_tag != ZERO_CONF_QUERY_TAG ==> r == Ok::<Option<CustomMessage>, SessionError>(
            None,
        ),
        msg.type_tag == ZERO_CONF_QUERY_TAG ==> match parse_query(msg.payload@) {
            None => r == Ok::<Option<CustomMessage>, SessionError>(None),
            Some(raw_id) => {
                if pubkey_valid(msg.peer@) {
                    r matches Ok(Some(reply)) && reply.type_tag == ZERO_CONF_REPLY_TAG
                        && reply.peer@ == msg.peer@ && reply.payload@ == reply_payload(
                        raw_id,
                        spec_allows_zero_conf(w@, pubkey_hex(msg.peer@)),
                    )
                } else {
                    r == Err::<Option<CustomMessage>, SessionError>(
                        SessionError::MalformedPeerIdentity,
                    )
                }
            },
        },
{
    if msg.type_tag != ZERO_CONF_QUERY_TAG {
        return Ok(None);
    }
    let raw_id = match parse_query_payload(msg.payload.as_str()) {
        Some(raw_id) => raw_id,
        None => {
            return Ok(None);
        },
    };
    let identity = match normalize_peer_identity(msg.peer.as_slice()) {
        Some(identity) => identity,
        None => {
            return Err(SessionError::MalformedPeerIdentity);
        },
    };
    let allows = match w.lookup(identity.as_str()) {
        Some(confs) => confs == 0,
        None => false,
    };
    let payload = build_reply_payload(raw_id.as_str(), allows);
    Ok(
        Some(
            CustomMessage {
                type_tag: ZERO_CONF_REPLY_TAG,
                peer: msg.peer.clone(),
                payload,
            },
        ),
    )
}

} // verus!
