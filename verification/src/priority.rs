//! Parsing of the RFC 9218 `Priority` field, a Structured Field dictionary
//! (RFC 9651) whose member `u` is the urgency and `i` the incremental flag.
//!
//! This is a parser of its own, specified and proved against the grammar of
//! those two RFCs; it does not call the C library's priority parser, and
//! nothing here compares the two.
use vstd::prelude::*;
use vstd::utf8::*;

use crate::error::{fails_with, Error, ERR_INVALID_ARGUMENT};

verus! {

// ---------------------------------------------------------------------------
// Character classes
// ---------------------------------------------------------------------------

/// The classes of bytes that the parser scans runs of.
#[derive(Clone, Copy, Debug, PartialEq, Eq, Structural)]
pub enum ByteClass {
    /// Space.
    Space,
    /// Space or horizontal tab.
    Whitespace,
    /// Bytes after the first one of a key.
    KeyRest,
    /// Decimal digits.
    Digit,
    /// Bytes after the first one of a token.
    TokenRest,
    /// The base64 alphabet, without the padding byte.
    Base64,
    /// The base64 padding byte `=`.
    Padding,
}

pub open spec fn is_digit(c: u8) -> bool {
    0x30 <= c <= 0x39
}

pub open spec fn is_lcalpha(c: u8) -> bool {
    0x61 <= c <= 0x7a
}

pub open spec fn is_alpha(c: u8) -> bool {
    (0x41 <= c <= 0x5a) || is_lcalpha(c)
}

/// A token character: `!#$%&'*+-.^_`|~`, a digit or a letter.
pub open spec fn is_tchar(c: u8) -> bool {
    ||| c == 0x21
    ||| 0x23 <= c <= 0x27
    ||| c == 0x2a || c == 0x2b || c == 0x2d || c == 0x2e
    ||| c == 0x5e || c == 0x5f || c == 0x60 || c == 0x7c || c == 0x7e
    ||| is_digit(c)
    ||| is_alpha(c)
}

/// A lower-case hexadecimal digit.
pub open spec fn is_lchex(c: u8) -> bool {
    is_digit(c) || (0x61 <= c <= 0x66)
}

pub open spec fn in_class(c: u8, class: ByteClass) -> bool {
    match class {
        ByteClass::Space => c == 0x20,
        ByteClass::Whitespace => c == 0x20 || c == 0x09,
        ByteClass::KeyRest => is_lcalpha(c) || is_digit(c) || c == 0x5f || c == 0x2d || c == 0x2e
            || c == 0x2a,
        ByteClass::Digit => is_digit(c),
        ByteClass::TokenRest => is_tchar(c) || c == 0x3a || c == 0x2f,
        ByteClass::Base64 => is_alpha(c) || is_digit(c) || c == 0x2b || c == 0x2f,
        ByteClass::Padding => c == 0x3d,
    }
}

fn class_contains(c: u8, class: ByteClass) -> (r: bool)
    ensures
        r == in_class(c, class),
{
    match class {
        ByteClass::Space => c == 0x20,
        ByteClass::Whitespace => c == 0x20 || c == 0x09,
        ByteClass::KeyRest => (0x61 <= c && c <= 0x7a) || (0x30 <= c && c <= 0x39) || c == 0x5f
            || c == 0x2d || c == 0x2e || c == 0x2a,
        ByteClass::Digit => 0x30 <= c && c <= 0x39,
        ByteClass::TokenRest => c == 0x21 || (0x23 <= c && c <= 0x27) || c == 0x2a || c == 0x2b
            || c == 0x2d || c == 0x2e || c == 0x5e || c == 0x5f || c == 0x60 || c == 0x7c || c
            == 0x7e || (0x30 <= c && c <= 0x39) || (0x41 <= c && c <= 0x5a) || (0x61 <= c && c
            <= 0x7a) || c == 0x3a || c == 0x2f,
        ByteClass::Base64 => (0x41 <= c && c <= 0x5a) || (0x61 <= c && c <= 0x7a) || (0x30 <= c
            && c <= 0x39) || c == 0x2b || c == 0x2f,
        ByteClass::Padding => c == 0x3d,
    }
}

/// The end of the run of `class` bytes that starts at `i`.
pub open spec fn scan(s: Seq<u8>, i: int, class: ByteClass) -> int
    decreases s.len() - i,
{
    if 0 <= i < s.len() && in_class(s[i], class) {
        scan(s, i + 1, class)
    } else {
        i
    }
}

pub proof fn lemma_scan_bounds(s: Seq<u8>, i: int, class: ByteClass)
    requires
        0 <= i <= s.len(),
    ensures
        i <= scan(s, i, class) <= s.len(),
    decreases s.len() - i,
{
    if i < s.len() && in_class(s[i], class) {
        lemma_scan_bounds(s, i + 1, class);
    }
}

fn scan_exec(s: &[u8], i: usize, class: ByteClass) -> (r: usize)
    requires
        i <= s@.len(),
    ensures
        r == scan(s@, i as int, class),
        i <= r <= s@.len(),
{
    let mut j = i;
    while j < s.len() && class_contains(s[j], class)
        invariant
            i <= j <= s@.len(),
            scan(s@, i as int, class) == scan(s@, j as int, class),
        decreases s@.len() - j,
    {
        j = j + 1;
    }
    j
}

// ---------------------------------------------------------------------------
// Values
// ---------------------------------------------------------------------------

/// What the priority rules need to know of a member's value.
#[derive(Clone, Copy, Debug, PartialEq, Eq, Structural)]
pub enum SfValue {
    Integer(i64),
    Boolean(bool),
    /// A decimal, string, token, byte sequence, date, display string or inner list.
    Other,
}

/// `10` raised to the power `n`.
pub open spec fn pow10(n: nat) -> nat
    decreases n,
{
    if n == 0 {
        1
    } else {
        10 * pow10((n - 1) as nat)
    }
}

/// The number that the decimal digits `s[start..end]` denote.
pub open spec fn digits_value(s: Seq<u8>, start: int, end: int) -> nat
    decreases end - start,
{
    if end <= start {
        0
    } else {
        digits_value(s, start, end - 1) * 10 + (s[end - 1] - 0x30) as nat
    }
}

/// A key starting at `i`: a lower-case letter or `*`, then key bytes; its end.
pub open spec fn parse_key(s: Seq<u8>, i: int) -> Option<int> {
    if 0 <= i < s.len() && (is_lcalpha(s[i]) || s[i] == 0x2a) {
        Some(scan(s, i + 1, ByteClass::KeyRest))
    } else {
        None
    }
}

/// An integer or decimal starting at `i`: an optional `-`, at most fifteen
/// digits for an integer, or at most twelve digits, `.` and one to three
/// digits for a decimal.
pub open spec fn parse_number(s: Seq<u8>, i: int) -> Option<(SfValue, int)> {
    let negative = 0 <= i < s.len() && s[i] == 0x2d;
    let start = if negative {
        i + 1
    } else {
        i
    };
    if !(0 <= start < s.len() && is_digit(s[start])) {
        None
    } else {
        let int_end = scan(s, start, ByteClass::Digit);
        let int_len = int_end - start;
        if int_len > 15 {
            None
        } else if int_end < s.len() && s[int_end] == 0x2e {
            let frac_end = scan(s, int_end + 1, ByteClass::Digit);
            let frac_len = frac_end - int_end - 1;
            if int_len > 12 || frac_len == 0 || frac_len > 3 {
                None
            } else {
                Some((SfValue::Other, frac_end))
            }
        } else {
            let magnitude = digits_value(s, start, int_end) as int;
            Some(
                (
                    SfValue::Integer(
                        (if negative {
                            -magnitude
                        } else {
                            magnitude
                        }) as i64,
                    ),
                    int_end,
                ),
            )
        }
    }
}

/// The end of a string whose opening quote precedes `i`: printable ASCII,
/// with `\` escaping only `"` and `\`, up to the closing quote.
pub open spec fn string_end(s: Seq<u8>, i: int) -> Option<int>
    decreases s.len() - i,
{
    if i < 0 || i >= s.len() {
        None
    } else if s[i] == 0x5c {
        if i + 1 < s.len() && (s[i + 1] == 0x22 || s[i + 1] == 0x5c) {
            string_end(s, i + 2)
        } else {
            None
        }
    } else if s[i] == 0x22 {
        Some(i + 1)
    } else if s[i] < 0x20 || s[i] >= 0x7f {
        None
    } else {
        string_end(s, i + 1)
    }
}

/// A byte sequence whose opening `:` is at `i`: base64 text that decodes,
/// then `:`. The text holds at most two padding bytes, only at its end, does
/// not leave a single dangling character, and padding completes a quantum.
pub open spec fn byte_sequence_end(s: Seq<u8>, i: int) -> Option<int> {
    let text_end = scan(s, i + 1, ByteClass::Base64);
    let pad_end = scan(s, text_end, ByteClass::Padding);
    let chars = text_end - (i + 1);
    let pads = pad_end - text_end;
    if pad_end < s.len() && s[pad_end] == 0x3a && pads <= 2 && chars % 4 != 1 && (pads > 0 ==> (
    chars + pads) % 4 == 0) {
        Some(pad_end + 1)
    } else {
        None
    }
}

/// The value of a lower-case hexadecimal digit.
pub open spec fn hex_value(c: u8) -> u8 {
    if is_digit(c) {
        (c - 0x30) as u8
    } else {
        (c - 0x61 + 10) as u8
    }
}

/// The end of a display string whose opening `%"` precedes `i`, where
/// `bytes` are the bytes decoded so far: printable ASCII and `%` followed by
/// two lower-case hex digits, up to the closing quote; the bytes must be UTF-8.
pub open spec fn display_string_end(s: Seq<u8>, i: int, bytes: Seq<u8>) -> Option<int>
    decreases s.len() - i,
{
    if i < 0 || i >= s.len() {
        None
    } else if s[i] < 0x20 || s[i] >= 0x7f {
        None
    } else if s[i] == 0x25 {
        if i + 2 < s.len() && is_lchex(s[i + 1]) && is_lchex(s[i + 2]) {
            display_string_end(s, i + 3, bytes.push((hex_value(s[i + 1]) * 16 + hex_value(s[i + 2])) as u8))
        } else {
            None
        }
    } else if s[i] == 0x22 {
        if valid_utf8(bytes) {
            Some(i + 1)
        } else {
            None
        }
    } else {
        display_string_end(s, i + 1, bytes.push(s[i]))
    }
}

/// A bare item starting at `i`, chosen by its first byte.
pub open spec fn parse_bare_item(s: Seq<u8>, i: int) -> Option<(SfValue, int)> {
    if i < 0 || i >= s.len() {
        None
    } else {
        let c = s[i];
        if c == 0x2d || is_digit(c) {
            parse_number(s, i)
        } else if c == 0x22 {
            match string_end(s, i + 1) {
                Some(e) => Some((SfValue::Other, e)),
                None => None,
            }
        } else if is_alpha(c) || c == 0x2a {
            Some((SfValue::Other, scan(s, i + 1, ByteClass::TokenRest)))
        } else if c == 0x3a {
            match byte_sequence_end(s, i) {
                Some(e) => Some((SfValue::Other, e)),
                None => None,
            }
        } else if c == 0x3f {
            if i + 1 < s.len() && (s[i + 1] == 0x30 || s[i + 1] == 0x31) {
                Some((SfValue::Boolean(s[i + 1] == 0x31), i + 2))
            } else {
                None
            }
        } else if c == 0x40 {
            match parse_number(s, i + 1) {
                Some((SfValue::Integer(_), e)) => Some((SfValue::Other, e)),
                _ => None,
            }
        } else if c == 0x25 {
            if i + 1 < s.len() && s[i + 1] == 0x22 {
                match display_string_end(s, i + 2, Seq::empty()) {
                    Some(e) => Some((SfValue::Other, e)),
                    None => None,
                }
            } else {
                None
            }
        } else {
            None
        }
    }
}

pub proof fn lemma_string_end_progress(s: Seq<u8>, i: int)
    ensures
        string_end(s, i) matches Some(e) ==> i < e <= s.len(),
    decreases s.len() - i,
{
    if 0 <= i < s.len() {
        if s[i] == 0x5c {
            if i + 1 < s.len() {
                lemma_string_end_progress(s, i + 2);
            }
        } else if s[i] != 0x22 {
            lemma_string_end_progress(s, i + 1);
        }
    }
}

pub proof fn lemma_display_string_end_progress(s: Seq<u8>, i: int, bytes: Seq<u8>)
    ensures
        display_string_end(s, i, bytes) matches Some(e) ==> i < e <= s.len(),
    decreases s.len() - i,
{
    if 0 <= i < s.len() && !(s[i] < 0x20 || s[i] >= 0x7f) {
        if s[i] == 0x25 {
            if i + 2 < s.len() && is_lchex(s[i + 1]) && is_lchex(s[i + 2]) {
                lemma_display_string_end_progress(
                    s,
                    i + 3,
                    bytes.push((hex_value(s[i + 1]) * 16 + hex_value(s[i + 2])) as u8),
                );
            }
        } else if s[i] != 0x22 {
            lemma_display_string_end_progress(s, i + 1, bytes.push(s[i]));
        }
    }
}

pub proof fn lemma_number_progress(s: Seq<u8>, i: int)
    requires
        0 <= i,
    ensures
        parse_number(s, i) matches Some((_, e)) ==> i < e <= s.len(),
{
    let negative = 0 <= i < s.len() && s[i] == 0x2d;
    let start = if negative {
        i + 1
    } else {
        i
    };
    if 0 <= start < s.len() && is_digit(s[start]) {
        lemma_scan_bounds(s, start + 1, ByteClass::Digit);
        let int_end = scan(s, start, ByteClass::Digit);
        assert(int_end > start);
        if int_end < s.len() {
            lemma_scan_bounds(s, int_end + 1, ByteClass::Digit);
        }
    }
}

/// Every bare item consumes at least one byte and stays within the input.
pub proof fn lemma_bare_item_progress(s: Seq<u8>, i: int)
    ensures
        parse_bare_item(s, i) matches Some((_, e)) ==> i < e <= s.len(),
{
    if 0 <= i < s.len() {
        let c = s[i];
        if c == 0x2d || is_digit(c) {
            lemma_number_progress(s, i);
        } else if c == 0x22 {
            lemma_string_end_progress(s, i + 1);
        } else if is_alpha(c) || c == 0x2a {
            lemma_scan_bounds(s, i + 1, ByteClass::TokenRest);
        } else if c == 0x3a {
            lemma_scan_bounds(s, i + 1, ByteClass::Base64);
            lemma_scan_bounds(s, scan(s, i + 1, ByteClass::Base64), ByteClass::Padding);
        } else if c == 0x40 {
            lemma_number_progress(s, i + 1);
        } else if c == 0x25 {
            lemma_display_string_end_progress(s, i + 2, Seq::empty());
        }
    }
}

pub proof fn lemma_key_progress(s: Seq<u8>, i: int)
    ensures
        parse_key(s, i) matches Some(e) ==> i < e <= s.len(),
{
    if 0 <= i < s.len() {
        lemma_scan_bounds(s, i + 1, ByteClass::KeyRest);
    }
}

/// Parameters starting at `i`: any number of `;`, spaces, a key and an
/// optional `=` with a bare item; their end.
pub open spec fn parse_params(s: Seq<u8>, i: int) -> Option<int>
    decreases s.len() - i,
{
    if 0 <= i < s.len() && s[i] == 0x3b {
        let key_start = scan(s, i + 1, ByteClass::Space);
        match parse_key(s, key_start) {
            None => None,
            Some(key_end) => {
                proof {
                    lemma_scan_bounds(s, i + 1, ByteClass::Space);
                    lemma_key_progress(s, key_start);
                    lemma_bare_item_progress(s, key_end + 1);
                }
                if key_end < s.len() && s[key_end] == 0x3d {
                    match parse_bare_item(s, key_end + 1) {
                        None => None,
                        Some((_, e)) => parse_params(s, e),
                    }
                } else {
                    parse_params(s, key_end)
                }
            },
        }
    } else {
        Some(i)
    }
}

pub proof fn lemma_params_progress(s: Seq<u8>, i: int)
    requires
        0 <= i <= s.len(),
    ensures
        parse_params(s, i) matches Some(e) ==> i <= e <= s.len(),
    decreases s.len() - i,
{
    if 0 <= i < s.len() && s[i] == 0x3b {
        let key_start = scan(s, i + 1, ByteClass::Space);
        lemma_scan_bounds(s, i + 1, ByteClass::Space);
        lemma_key_progress(s, key_start);
        if let Some(key_end) = parse_key(s, key_start) {
            if key_end < s.len() && s[key_end] == 0x3d {
                lemma_bare_item_progress(s, key_end + 1);
                if let Some((_, e)) = parse_bare_item(s, key_end + 1) {
                    lemma_params_progress(s, e);
                }
            } else {
                lemma_params_progress(s, key_end);
            }
        }
    }
}

/// The rest of an inner list from `i` (after `(` or after an item): items
/// with parameters separated by spaces, then `)` and parameters; its end.
pub open spec fn inner_list_end(s: Seq<u8>, i: int) -> Option<int>
    decreases s.len() - i,
{
    let j = scan(s, i, ByteClass::Space);
    if j < 0 || j >= s.len() {
        None
    } else if s[j] == 0x29 {
        parse_params(s, j + 1)
    } else {
        match parse_bare_item(s, j) {
            None => None,
            Some((_, item_end)) => {
                proof {
                    if 0 <= i <= s.len() {
                        lemma_scan_bounds(s, i, ByteClass::Space);
                    }
                    lemma_bare_item_progress(s, j);
                    lemma_params_progress(s, item_end);
                }
                match parse_params(s, item_end) {
                    None => None,
                    Some(e) => if e < s.len() && (s[e] == 0x20 || s[e] == 0x29) {
                        inner_list_end(s, e)
                    } else {
                        None
                    },
                }
            },
        }
    }
}

/// A member value starting at `i` (after `=`): an inner list, or a bare item
/// with parameters.
pub open spec fn parse_member_value(s: Seq<u8>, i: int) -> Option<(SfValue, int)> {
    if 0 <= i < s.len() && s[i] == 0x28 {
        match inner_list_end(s, i + 1) {
            Some(e) => Some((SfValue::Other, e)),
            None => None,
        }
    } else {
        match parse_bare_item(s, i) {
            None => None,
            Some((v, e)) => match parse_params(s, e) {
                Some(e2) => Some((v, e2)),
                None => None,
            },
        }
    }
}

pub proof fn lemma_inner_list_progress(s: Seq<u8>, i: int)
    ensures
        inner_list_end(s, i) matches Some(e) ==> i < e <= s.len(),
    decreases s.len() - i,
{
    let j = scan(s, i, ByteClass::Space);
    if 0 <= i <= s.len() {
        lemma_scan_bounds(s, i, ByteClass::Space);
    }
    if 0 <= j < s.len() {
        if s[j] == 0x29 {
            lemma_params_progress(s, j + 1);
        } else {
            lemma_bare_item_progress(s, j);
            if let Some((_, item_end)) = parse_bare_item(s, j) {
                lemma_params_progress(s, item_end);
                if let Some(e) = parse_params(s, item_end) {
                    if e < s.len() && (s[e] == 0x20 || s[e] == 0x29) {
                        lemma_inner_list_progress(s, e);
                    }
                }
            }
        }
    }
}

/// A member starting at `i`: a key, then `=` and a value, or else the value
/// true with parameters. Its key end, value, and end.
pub open spec fn parse_member(s: Seq<u8>, i: int) -> Option<(int, SfValue, int)> {
    match parse_key(s, i) {
        None => None,
        Some(key_end) => {
            let member = if key_end < s.len() && s[key_end] == 0x3d {
                parse_member_value(s, key_end + 1)
            } else {
                match parse_params(s, key_end) {
                    Some(e) => Some((SfValue::Boolean(true), e)),
                    None => None,
                }
            };
            match member {
                None => None,
                Some((value, value_end)) => Some((key_end, value, value_end)),
            }
        },
    }
}

/// A member's key is not empty, and its value ends after the key and within the input.
pub proof fn lemma_member_progress(s: Seq<u8>, i: int)
    ensures
        parse_member(s, i) matches Some((key_end, _, value_end)) ==> i < key_end <= value_end
            <= s.len(),
{
    lemma_key_progress(s, i);
    if let Some(key_end) = parse_key(s, i) {
        let v = key_end + 1;
        if key_end < s.len() && s[key_end] == 0x3d {
            if v < s.len() && s[v] == 0x28 {
                lemma_inner_list_progress(s, v + 1);
            } else {
                lemma_bare_item_progress(s, v);
                if let Some((_, e)) = parse_bare_item(s, v) {
                    lemma_params_progress(s, e);
                }
            }
        } else {
            lemma_params_progress(s, key_end);
        }
    }
}

/// The members of a dictionary from `i` on, appended to `members`: a key, then
/// `=` and a value or else the value true with parameters; members are
/// separated by a comma with optional whitespace around it, and no comma ends
/// the dictionary.
pub open spec fn parse_members(s: Seq<u8>, i: int, members: Seq<(Seq<u8>, SfValue)>) -> Option<
    Seq<(Seq<u8>, SfValue)>,
>
    decreases s.len() - i,
{
    match parse_member(s, i) {
        None => None,
        Some((key_end, value, value_end)) => {
            let members = members.push((s.subrange(i, key_end), value));
            let comma = scan(s, value_end, ByteClass::Whitespace);
            if comma >= s.len() {
                Some(members)
            } else if s[comma] != 0x2c {
                None
            } else {
                let next = scan(s, comma + 1, ByteClass::Whitespace);
                proof {
                    lemma_member_progress(s, i);
                    lemma_scan_bounds(s, value_end, ByteClass::Whitespace);
                    lemma_scan_bounds(s, comma + 1, ByteClass::Whitespace);
                }
                if next >= s.len() {
                    None
                } else {
                    parse_members(s, next, members)
                }
            }
        },
    }
}

/// The members of the dictionary that `s` holds, after leading spaces; an
/// input of spaces only is the empty dictionary.
pub open spec fn parse_dictionary(s: Seq<u8>) -> Option<Seq<(Seq<u8>, SfValue)>> {
    let start = scan(s, 0, ByteClass::Space);
    if start >= s.len() {
        Some(Seq::empty())
    } else {
        parse_members(s, start, Seq::empty())
    }
}

// ---------------------------------------------------------------------------
// Priority
// ---------------------------------------------------------------------------

/// A stream's priority: urgency 0 (highest) to 7 (lowest), and whether its
/// response may be interleaved with others of the same urgency.
#[derive(Clone, Copy, Debug, PartialEq, Eq, Structural)]
pub struct Priority {
    pub urgency: u32,
    pub incremental: bool,
}

/// The priority of a stream that announces none.
pub open spec fn default_priority() -> Priority {
    Priority { urgency: 3, incremental: false }
}

impl Default for Priority {
    fn default() -> (r: Self)
        ensures
            r == default_priority(),
    {
        Priority { urgency: 3, incremental: false }
    }
}

/// One member applied to a priority: `u` must be an integer from 0 to 7 and
/// sets the urgency, `i` must be a boolean and sets the incremental flag, and
/// any other member is ignored.
pub open spec fn apply_member(member: (Seq<u8>, SfValue), p: Priority) -> Option<Priority> {
    if member.0 == seq![0x75u8] {
        match member.1 {
            SfValue::Integer(n) => if 0 <= n <= 7 {
                Some(Priority { urgency: n as u32, ..p })
            } else {
                None
            },
            _ => None,
        }
    } else if member.0 == seq![0x69u8] {
        match member.1 {
            SfValue::Boolean(b) => Some(Priority { incremental: b, ..p }),
            _ => None,
        }
    } else {
        Some(p)
    }
}

/// The members applied in order to `p`.
pub open spec fn apply_members(members: Seq<(Seq<u8>, SfValue)>, p: Priority) -> Option<Priority>
    decreases members.len(),
{
    if members.len() == 0 {
        Some(p)
    } else {
        match apply_members(members.drop_last(), p) {
            None => None,
            Some(q) => apply_member(members.last(), q),
        }
    }
}

/// The priority that a field value announces, or nothing when it is not a
/// valid dictionary or a `u` or `i` member is out of place.
pub open spec fn priority_of(s: Seq<u8>) -> Option<Priority> {
    match parse_dictionary(s) {
        None => None,
        Some(members) => apply_members(members, default_priority()),
    }
}

proof fn lemma_apply_members_push(
    members: Seq<(Seq<u8>, SfValue)>,
    member: (Seq<u8>, SfValue),
    p: Priority,
)
    ensures
        apply_members(members.push(member), p) == (match apply_members(members, p) {
            None => None,
            Some(q) => apply_member(member, q),
        }),
{
    assert(members.push(member).drop_last() =~= members);
}

/// Once a member fails, no later member makes the priority valid again.
proof fn lemma_parse_members_after_failure(
    s: Seq<u8>,
    i: int,
    members: Seq<(Seq<u8>, SfValue)>,
    p: Priority,
)
    requires
        apply_members(members, p) is None,
    ensures
        parse_members(s, i, members) matches Some(all) ==> apply_members(all, p) is None,
    decreases s.len() - i,
{
    if let Some((key_end, value, value_end)) = parse_member(s, i) {
        let member = (s.subrange(i, key_end), value);
        let more = members.push(member);
        lemma_apply_members_push(members, member, p);
        let comma = scan(s, value_end, ByteClass::Whitespace);
        if comma < s.len() && s[comma] == 0x2c {
            let next = scan(s, comma + 1, ByteClass::Whitespace);
            lemma_member_progress(s, i);
            lemma_scan_bounds(s, value_end, ByteClass::Whitespace);
            lemma_scan_bounds(s, comma + 1, ByteClass::Whitespace);
            if next < s.len() {
                lemma_parse_members_after_failure(s, next, more, p);
            }
        }
    }
}

/// Applying members only ever sets urgencies from 0 to 7.
proof fn lemma_apply_members_urgency(members: Seq<(Seq<u8>, SfValue)>, p: Priority)
    requires
        p.urgency <= 7,
    ensures
        apply_members(members, p) matches Some(q) ==> q.urgency <= 7,
    decreases members.len(),
{
    if members.len() > 0 {
        lemma_apply_members_urgency(members.drop_last(), p);
    }
}

/// Every priority that a field value announces has an urgency from 0 to 7.
pub proof fn lemma_priority_urgency_in_range(s: Seq<u8>)
    ensures
        priority_of(s) matches Some(p) ==> p.urgency <= 7,
{
    if let Some(members) = parse_dictionary(s) {
        lemma_apply_members_urgency(members, default_priority());
    }
}

/// A field value that is empty, or only spaces, announces the default priority.
pub proof fn lemma_blank_priority_is_default(s: Seq<u8>)
    requires
        forall|k: int| 0 <= k < s.len() ==> #[trigger] s[k] == 0x20,
    ensures
        priority_of(s) == Some(default_priority()),
{
    lemma_scan_spaces(s, 0);
}

proof fn lemma_scan_spaces(s: Seq<u8>, i: int)
    requires
        0 <= i <= s.len(),
        forall|k: int| 0 <= k < s.len() ==> #[trigger] s[k] == 0x20,
    ensures
        scan(s, i, ByteClass::Space) == s.len(),
    decreases s.len() - i,
{
    if i < s.len() {
        lemma_scan_spaces(s, i + 1);
    }
}


// ---------------------------------------------------------------------------
// Executable parser
// ---------------------------------------------------------------------------

/// A position found by an executable parser, read as a spec position.
pub open spec fn opt_pos(r: Option<usize>) -> Option<int> {
    match r {
        Some(e) => Some(e as int),
        None => None,
    }
}

/// A value and position found by an executable parser, read as spec values.
pub open spec fn opt_item(r: Option<(SfValue, usize)>) -> Option<(SfValue, int)> {
    match r {
        Some((v, e)) => Some((v, e as int)),
        None => None,
    }
}

proof fn lemma_scan_in_class(s: Seq<u8>, i: int, class: ByteClass, k: int)
    requires
        0 <= i <= k < scan(s, i, class),
    ensures
        in_class(s[k], class),
    decreases s.len() - i,
{
    if 0 <= i < s.len() && in_class(s[i], class) {
        if k > i {
            lemma_scan_in_class(s, i + 1, class, k);
        }
    }
}

proof fn lemma_pow10_bound(n: nat)
    requires
        n <= 15,
    ensures
        pow10(n) <= 1_000_000_000_000_000,
    decreases 15 - n,
{
    if n < 15 {
        lemma_pow10_bound(n + 1);
    } else {
        reveal_with_fuel(pow10, 16);
    }
    assert(pow10(n) <= pow10(n + 1)) by {
        assert(pow10(n + 1) == 10 * pow10(n));
    }
}

fn parse_key_exec(s: &[u8], i: usize) -> (r: Option<usize>)
    requires
        i <= s@.len(),
    ensures
        opt_pos(r) == parse_key(s@, i as int),
{
    if i < s.len() && ((0x61 <= s[i] && s[i] <= 0x7a) || s[i] == 0x2a) {
        Some(scan_exec(s, i + 1, ByteClass::KeyRest))
    } else {
        None
    }
}

fn digits_value_exec(s: &[u8], start: usize, end: usize) -> (r: u64)
    requires
        start <= end <= s@.len(),
        end - start <= 15,
        forall|k: int| start <= k < end ==> is_digit(#[trigger] s@[k]),
    ensures
        r == digits_value(s@, start as int, end as int),
        r <= 1_000_000_000_000_000,
{
    let mut v: u64 = 0;
    let mut k = start;
    while k < end
        invariant
            start <= k <= end <= s@.len(),
            end - start <= 15,
            forall|m: int| start <= m < end ==> is_digit(#[trigger] s@[m]),
            v == digits_value(s@, start as int, k as int),
            v < pow10((k - start) as nat),
        decreases end - k,
    {
        let d = s[k] - 0x30;
        proof {
            assert(is_digit(s@[k as int]));
            let p = pow10((k - start) as nat);
            assert(pow10((k + 1 - start) as nat) == 10 * p);
            lemma_pow10_bound((k + 1 - start) as nat);
            assert(v * 10 + d < 10 * p) by (nonlinear_arith)
                requires
                    v < p,
                    d < 10,
            ;
        }
        v = v * 10 + d as u64;
        k = k + 1;
    }
    proof {
        lemma_pow10_bound((end - start) as nat);
    }
    v
}

fn parse_number_exec(s: &[u8], i: usize) -> (r: Option<(SfValue, usize)>)
    requires
        i <= s@.len(),
    ensures
        opt_item(r) == parse_number(s@, i as int),
{
    let negative = i < s.len() && s[i] == 0x2d;
    let start = if negative {
        i + 1
    } else {
        i
    };
    if !(start < s.len() && 0x30 <= s[start] && s[start] <= 0x39) {
        return None;
    }
    let int_end = scan_exec(s, start, ByteClass::Digit);
    if int_end - start > 15 {
        return None;
    }
    if int_end < s.len() && s[int_end] == 0x2e {
        let frac_end = scan_exec(s, int_end + 1, ByteClass::Digit);
        let frac_len = frac_end - int_end - 1;
        if int_end - start > 12 || frac_len == 0 || frac_len > 3 {
            return None;
        }
        return Some((SfValue::Other, frac_end));
    }
    proof {
        assert forall|k: int| start <= k < int_end implies is_digit(#[trigger] s@[k]) by {
            lemma_scan_in_class(s@, start as int, ByteClass::Digit, k);
        }
    }
    let magnitude = digits_value_exec(s, start, int_end) as i64;
    let value = if negative {
        -magnitude
    } else {
        magnitude
    };
    Some((SfValue::Integer(value), int_end))
}

fn string_end_exec(s: &[u8], i: usize) -> (r: Option<usize>)
    requires
        i <= s@.len(),
    ensures
        opt_pos(r) == string_end(s@, i as int),
{
    let mut j = i;
    loop
        invariant
            i <= j <= s@.len(),
            string_end(s@, i as int) == string_end(s@, j as int),
        decreases s@.len() - j,
    {
        if j >= s.len() {
            return None;
        }
        let c = s[j];
        if c == 0x5c {
            if j + 1 < s.len() && (s[j + 1] == 0x22 || s[j + 1] == 0x5c) {
                j = j + 2;
            } else {
                return None;
            }
        } else if c == 0x22 {
            return Some(j + 1);
        } else if c < 0x20 || c >= 0x7f {
            return None;
        } else {
            j = j + 1;
        }
    }
}

fn byte_sequence_end_exec(s: &[u8], i: usize) -> (r: Option<usize>)
    requires
        i < s@.len(),
    ensures
        opt_pos(r) == byte_sequence_end(s@, i as int),
{
    let n = s.len();
    let text_end = scan_exec(s, i + 1, ByteClass::Base64);
    let pad_end = scan_exec(s, text_end, ByteClass::Padding);
    let chars = text_end - (i + 1);
    let pads = pad_end - text_end;
    if pad_end < s.len() && s[pad_end] == 0x3a && pads <= 2 && chars % 4 != 1 && (pads == 0 || (
    chars + pads) % 4 == 0) {
        Some(pad_end + 1)
    } else {
        None
    }
}

fn hex_value_exec(c: u8) -> (r: u8)
    requires
        is_lchex(c),
    ensures
        r == hex_value(c),
        r < 16,
{
    if 0x30 <= c && c <= 0x39 {
        c - 0x30
    } else {
        c - 0x61 + 10
    }
}

/// Whether `bytes` are valid UTF-8.
fn utf8_valid(bytes: &Vec<u8>) -> (r: bool)
    ensures
        r == valid_utf8(bytes@),
{
    let n = bytes.len();
    let mut i: usize = 0;
    assert(bytes@.subrange(0, n as int) =~= bytes@);
    while i < n
        invariant
            i <= n == bytes@.len(),
            valid_utf8(bytes@) == valid_utf8(bytes@.subrange(i as int, n as int)),
        decreases n - i,
    {
        let ghost t = bytes@.subrange(i as int, n as int);
        let c0 = bytes[i];
        let width: usize;
        let cp: u32;
        if c0 <= 0x7f {
            width = 1;
            cp = (c0 & 0x7F) as u32;
        } else if 0xc0 <= c0 && c0 <= 0xdf {
            if n - i <= 1 || !(0x80 <= bytes[i + 1] && bytes[i + 1] <= 0xbf) {
                return false;
            }
            width = 2;
            cp = (((c0 & 0x1F) as u32) << 6) | ((bytes[i + 1] & 0x3f) as u32);
        } else if 0xe0 <= c0 && c0 <= 0xef {
            if n - i <= 2 || !(0x80 <= bytes[i + 1] && bytes[i + 1] <= 0xbf) || !(0x80
                <= bytes[i + 2] && bytes[i + 2] <= 0xbf) {
                return false;
            }
            width = 3;
            cp = (((c0 & 0x0F) as u32) << 12) | (((bytes[i + 1] & 0x3f) as u32) << 6) | ((bytes[i
                + 2] & 0x3f) as u32);
        } else if 0xf0 <= c0 && c0 <= 0xf7 {
            if n - i <= 3 || !(0x80 <= bytes[i + 1] && bytes[i + 1] <= 0xbf) || !(0x80
                <= bytes[i + 2] && bytes[i + 2] <= 0xbf) || !(0x80 <= bytes[i + 3] && bytes[i
                + 3] <= 0xbf) {
                return false;
            }
            width = 4;
            cp = (((c0 & 0x07) as u32) << 18) | (((bytes[i + 1] & 0x3f) as u32) << 12) | (((bytes[i
                + 2] & 0x3f) as u32) << 6) | ((bytes[i + 3] & 0x3f) as u32);
        } else {
            return false;
        }
        proof {
            assert(t[0] == c0);
            assert(valid_leading_and_continuation_bytes_first_codepoint(t));
            assert(decode_first_codepoint(t) == cp);
            assert(length_of_first_codepoint(t) == width);
        }
        if (width == 2 && cp < 0x80) || (width == 3 && cp < 0x800) || (width == 4 && (cp < 0x10000
            || cp > 0x10ffff)) || (0xD800 <= cp && cp <= 0xDFFF) {
            return false;
        }
        proof {
            assert(valid_first_scalar(t));
            assert(pop_first_scalar(t) =~= bytes@.subrange(i + width, n as int));
        }
        i = i + width;
    }
    proof {
        assert(bytes@.subrange(n as int, n as int).len() == 0);
    }
    true
}

fn display_string_end_exec(s: &[u8], i: usize) -> (r: Option<usize>)
    requires
        i <= s@.len(),
    ensures
        opt_pos(r) == display_string_end(s@, i as int, Seq::empty()),
{
    let mut j = i;
    let mut bytes: Vec<u8> = Vec::new();
    loop
        invariant
            i <= j <= s@.len(),
            display_string_end(s@, i as int, Seq::empty()) == display_string_end(
                s@,
                j as int,
                bytes@,
            ),
        decreases s@.len() - j,
    {
        if j >= s.len() {
            return None;
        }
        let c = s[j];
        if c < 0x20 || c >= 0x7f {
            return None;
        } else if c == 0x25 {
            if s.len() - j > 2 && ((0x30 <= s[j + 1] && s[j + 1] <= 0x39) || (0x61 <= s[j + 1]
                && s[j + 1] <= 0x66)) && ((0x30 <= s[j + 2] && s[j + 2] <= 0x39) || (0x61 <= s[j
                + 2] && s[j + 2] <= 0x66)) {
                let high = hex_value_exec(s[j + 1]);
                let low = hex_value_exec(s[j + 2]);
                bytes.push(high * 16 + low);
                j = j + 3;
            } else {
                return None;
            }
        } else if c == 0x22 {
            if utf8_valid(&bytes) {
                return Some(j + 1);
            } else {
                return None;
            }
        } else {
            bytes.push(c);
            j = j + 1;
        }
    }
}

fn parse_bare_item_exec(s: &[u8], i: usize) -> (r: Option<(SfValue, usize)>)
    requires
        i <= s@.len(),
    ensures
        opt_item(r) == parse_bare_item(s@, i as int),
{
    if i >= s.len() {
        return None;
    }
    let c = s[i];
    let alpha = (0x41 <= c && c <= 0x5a) || (0x61 <= c && c <= 0x7a);
    if c == 0x2d || (0x30 <= c && c <= 0x39) {
        parse_number_exec(s, i)
    } else if c == 0x22 {
        match string_end_exec(s, i + 1) {
            Some(e) => Some((SfValue::Other, e)),
            None => None,
        }
    } else if alpha || c == 0x2a {
        Some((SfValue::Other, scan_exec(s, i + 1, ByteClass::TokenRest)))
    } else if c == 0x3a {
        match byte_sequence_end_exec(s, i) {
            Some(e) => Some((SfValue::Other, e)),
            None => None,
        }
    } else if c == 0x3f {
        if i + 1 < s.len() && (s[i + 1] == 0x30 || s[i + 1] == 0x31) {
            Some((SfValue::Boolean(s[i + 1] == 0x31), i + 2))
        } else {
            None
        }
    } else if c == 0x40 {
        match parse_number_exec(s, i + 1) {
            Some((SfValue::Integer(_), e)) => Some((SfValue::Other, e)),
            _ => None,
        }
    } else if c == 0x25 {
        if i + 1 < s.len() && s[i + 1] == 0x22 {
            match display_string_end_exec(s, i + 2) {
                Some(e) => Some((SfValue::Other, e)),
                None => None,
            }
        } else {
            None
        }
    } else {
        None
    }
}

fn parse_params_exec(s: &[u8], i: usize) -> (r: Option<usize>)
    requires
        i <= s@.len(),
    ensures
        opt_pos(r) == parse_params(s@, i as int),
{
    let mut j = i;
    loop
        invariant
            i <= j <= s@.len(),
            parse_params(s@, i as int) == parse_params(s@, j as int),
        decreases s@.len() - j,
    {
        if !(j < s.len() && s[j] == 0x3b) {
            return Some(j);
        }
        let key_start = scan_exec(s, j + 1, ByteClass::Space);
        let key_end = match parse_key_exec(s, key_start) {
            Some(e) => e,
            None => {
                return None;
            },
        };
        proof {
            lemma_key_progress(s@, key_start as int);
        }
        if key_end < s.len() && s[key_end] == 0x3d {
            match parse_bare_item_exec(s, key_end + 1) {
                Some((_, e)) => {
                    proof {
                        lemma_bare_item_progress(s@, key_end + 1);
                    }
                    j = e;
                },
                None => {
                    return None;
                },
            }
        } else {
            j = key_end;
        }
    }
}

fn inner_list_end_exec(s: &[u8], i: usize) -> (r: Option<usize>)
    requires
        i <= s@.len(),
    ensures
        opt_pos(r) == inner_list_end(s@, i as int),
{
    let mut k = i;
    loop
        invariant
            i <= k <= s@.len(),
            inner_list_end(s@, i as int) == inner_list_end(s@, k as int),
        decreases s@.len() - k,
    {
        let j = scan_exec(s, k, ByteClass::Space);
        if j >= s.len() {
            return None;
        }
        if s[j] == 0x29 {
            return parse_params_exec(s, j + 1);
        }
        let item_end = match parse_bare_item_exec(s, j) {
            Some((_, e)) => e,
            None => {
                return None;
            },
        };
        proof {
            lemma_bare_item_progress(s@, j as int);
        }
        let e = match parse_params_exec(s, item_end) {
            Some(e) => e,
            None => {
                return None;
            },
        };
        proof {
            lemma_params_progress(s@, item_end as int);
        }
        if e < s.len() && (s[e] == 0x20 || s[e] == 0x29) {
            k = e;
        } else {
            return None;
        }
    }
}

fn parse_member_value_exec(s: &[u8], i: usize) -> (r: Option<(SfValue, usize)>)
    requires
        i <= s@.len(),
    ensures
        opt_item(r) == parse_member_value(s@, i as int),
{
    if i < s.len() && s[i] == 0x28 {
        match inner_list_end_exec(s, i + 1) {
            Some(e) => Some((SfValue::Other, e)),
            None => None,
        }
    } else {
        match parse_bare_item_exec(s, i) {
            None => None,
            Some((v, e)) => {
                proof {
                    lemma_bare_item_progress(s@, i as int);
                }
                match parse_params_exec(s, e) {
                    Some(e2) => Some((v, e2)),
                    None => None,
                }
            },
        }
    }
}

fn parse_member_exec(s: &[u8], i: usize) -> (r: Option<(usize, SfValue, usize)>)
    requires
        i <= s@.len(),
    ensures
        match r {
            Some((k, v, e)) => parse_member(s@, i as int) == Some((k as int, v, e as int)),
            None => parse_member(s@, i as int) is None,
        },
{
    let key_end = match parse_key_exec(s, i) {
        Some(e) => e,
        None => {
            return None;
        },
    };
    proof {
        lemma_key_progress(s@, i as int);
    }
    let member = if key_end < s.len() && s[key_end] == 0x3d {
        parse_member_value_exec(s, key_end + 1)
    } else {
        match parse_params_exec(s, key_end) {
            Some(e) => Some((SfValue::Boolean(true), e)),
            None => None,
        }
    };
    match member {
        Some((value, value_end)) => Some((key_end, value, value_end)),
        None => None,
    }
}

/// Applies the member whose key is `s[i..key_end]` to `p`.
fn apply_member_exec(s: &[u8], i: usize, key_end: usize, value: SfValue, p: Priority) -> (r: Option<
    Priority,
>)
    requires
        i < key_end <= s@.len(),
    ensures
        r == apply_member((s@.subrange(i as int, key_end as int), value), p),
{
    let ghost key = s@.subrange(i as int, key_end as int);
    let one = key_end - i == 1;
    proof {
        if one && s@[i as int] == 0x75 {
            assert(key =~= seq![0x75u8]);
        } else if key.len() == 1 {
            assert(key[0] == s@[i as int]);
            assert(key != seq![0x75u8]);
        } else {
            assert(key.len() != seq![0x75u8].len());
        }
        if one && s@[i as int] == 0x69 {
            assert(key =~= seq![0x69u8]);
        } else if key.len() == 1 {
            assert(key[0] == s@[i as int]);
            assert(key != seq![0x69u8]);
        } else {
            assert(key.len() != seq![0x69u8].len());
        }
    }
    if one && s[i] == 0x75 {
        match value {
            SfValue::Integer(n) => {
                if 0 <= n && n <= 7 {
                    Some(Priority { urgency: n as u32, ..p })
                } else {
                    None
                }
            },
            _ => None,
        }
    } else if one && s[i] == 0x69 {
        match value {
            SfValue::Boolean(b) => Some(Priority { incremental: b, ..p }),
            _ => None,
        }
    } else {
        Some(p)
    }
}

impl Priority {
    /// Parses an RFC 9218 Priority field value.
    ///
    /// The value must be a Structured Field dictionary; its member `u` must be
    /// an integer from 0 to 7 and sets the urgency, its member `i` must be a
    /// boolean and sets the incremental flag, later members override earlier
    /// ones, and other members are ignored. What is not set keeps the default
    /// (urgency 3, not incremental). Anything else fails with
    /// `ERR_INVALID_ARGUMENT`.
    ///
    /// The grammar is that of RFC 9651 as `priority_of` states it; this parser
    /// is independent of the C library's own.
    pub fn parse(value: &[u8]) -> (r: Result<Priority, Error>)
        ensures
            priority_of(value@) matches Some(p) ==> r == Ok::<Priority, Error>(p),
            priority_of(value@) is None ==> fails_with(r, ERR_INVALID_ARGUMENT),
            r is Ok ==> r->Ok_0.urgency <= 7,
    {
        proof {
            lemma_priority_urgency_in_range(value@);
        }
        let start = scan_exec(value, 0, ByteClass::Space);
        if start >= value.len() {
            return Ok(Priority::default());
        }
        let mut i = start;
        let mut pri = Priority::default();
        let ghost mut members: Seq<(Seq<u8>, SfValue)> = Seq::empty();
        loop
            invariant
                i < value@.len(),
                priority_of(value@) == (match parse_members(value@, i as int, members) {
                    None => None,
                    Some(all) => apply_members(all, default_priority()),
                }),
                apply_members(members, default_priority()) == Some(pri),
            decreases value@.len() - i,
        {
            let (key_end, member_value, value_end) = match parse_member_exec(value, i) {
                Some(m) => m,
                None => {
                    return Err(Error::new(ERR_INVALID_ARGUMENT));
                },
            };
            proof {
                lemma_member_progress(value@, i as int);
            }
            let ghost member = (value@.subrange(i as int, key_end as int), member_value);
            let ghost more = members.push(member);
            let comma = scan_exec(value, value_end, ByteClass::Whitespace);
            proof {
                lemma_apply_members_push(members, member, default_priority());
            }
            match apply_member_exec(value, i, key_end, member_value, pri) {
                Some(q) => {
                    pri = q;
                },
                None => {
                    proof {
                        let next = scan(value@, comma + 1, ByteClass::Whitespace);
                        if comma < value@.len() && value@[comma as int] == 0x2c && next
                            < value@.len() {
                            lemma_parse_members_after_failure(
                                value@,
                                next,
                                more,
                                default_priority(),
                            );
                        }
                    }
                    return Err(Error::new(ERR_INVALID_ARGUMENT));
                },
            }
            if comma >= value.len() {
                proof {
                    lemma_priority_urgency_in_range(value@);
                }
                assert(priority_of(value@) == Some(pri));
                return Ok(pri);
            }
            if value[comma] != 0x2c {
                return Err(Error::new(ERR_INVALID_ARGUMENT));
            }
            let next = scan_exec(value, comma + 1, ByteClass::Whitespace);
            if next >= value.len() {
                return Err(Error::new(ERR_INVALID_ARGUMENT));
            }
            proof {
                members = more;
            }
            i = next;
        }
    }
}

} // verus!
