//! The sidecar parser: reads the textual layout encoding back into a
//! `MemoFolder`.
//!
//! The grammar is the object the encoder writes, with freedom where a file
//! may legitimately differ: the fields may come in any order and any subset
//! (a missing field keeps its structural default), any amount of whitespace
//! may stand between tokens, and strings may use the common backslash
//! escapes. Anything else — an unknown key, a malformed token, trailing
//! text, a number beyond the storable range — is a parse error.

use vstd::prelude::*;

use crate::codec::{bool_lit, digit_val, is_digit};
use crate::settings::{IconEntry, IconEntryV, LayoutV, MemoFolder, MemoIcon};

verus! {

/// Whether `c` is insignificant whitespace between tokens.
pub open spec fn is_ws(c: char) -> bool {
    c == ' ' || c == '\n' || c == '\t' || c == '\r'
}

/// The first position at or after `i` holding a non-whitespace character.
pub open spec fn skip_ws(s: Seq<char>, i: int) -> int
    decreases s.len() - i,
{
    if i < 0 || i >= s.len() {
        i
    } else if is_ws(s[i]) {
        skip_ws(s, i + 1)
    } else {
        i
    }
}

/// Whether `c` is a hexadecimal digit.
pub open spec fn is_hex_digit(c: char) -> bool {
    is_digit(c) || ('a' <= c && c <= 'f') || ('A' <= c && c <= 'F')
}

/// The numeric value of the hexadecimal digit `c`.
pub open spec fn hex_val(c: char) -> int {
    if is_digit(c) {
        c as int - 48
    } else if 'a' <= c && c <= 'f' {
        c as int - 87
    } else {
        c as int - 55
    }
}

/// The code point of a four-hex-digit escape starting at `i`.
pub open spec fn hex4_val(s: Seq<char>, i: int) -> int {
    hex_val(s[i]) * 4096 + hex_val(s[i + 1]) * 256 + hex_val(s[i + 2]) * 16 + hex_val(s[i + 3])
}

/// Whether the four characters at `i` are hexadecimal digits.
pub open spec fn hex4_at(s: Seq<char>, i: int) -> bool {
    &&& is_hex_digit(s[i])
    &&& is_hex_digit(s[i + 1])
    &&& is_hex_digit(s[i + 2])
    &&& is_hex_digit(s[i + 3])
}

/// The character a backslash escape stands for.
pub open spec fn unescape_char(c: char) -> Option<char> {
    if c == '"' {
        Some('"')
    } else if c == '\\' {
        Some('\\')
    } else if c == '/' {
        Some('/')
    } else if c == 'n' {
        Some('\n')
    } else if c == 't' {
        Some('\t')
    } else if c == 'r' {
        Some('\r')
    } else if c == 'b' {
        Some('\u{8}')
    } else if c == 'f' {
        Some('\u{c}')
    } else {
        None
    }
}

/// The characters of a quoted string read from just after its opening
/// quote, and the position just past its closing quote.
pub open spec fn parse_string_body(s: Seq<char>, i: int) -> Option<(Seq<char>, int)>
    decreases s.len() - i,
{
    if i < 0 || i >= s.len() {
        None
    } else if s[i] == '"' {
        Some((Seq::empty(), i + 1))
    } else if s[i] == '\\' {
        if i + 1 >= s.len() {
            None
        } else if s[i + 1] == 'u' {
            if i + 6 > s.len() {
                None
            } else if hex4_at(s, i + 2) {
                let v = hex4_val(s, i + 2);
                if 0xD800 <= v < 0xE000 {
                    None
                } else {
                    match parse_string_body(s, i + 6) {
                        Some((t, j)) => Some((seq![v as char] + t, j)),
                        None => None,
                    }
                }
            } else {
                None
            }
        } else {
            match unescape_char(s[i + 1]) {
                Some(c) => match parse_string_body(s, i + 2) {
                    Some((t, j)) => Some((seq![c] + t, j)),
                    None => None,
                },
                None => None,
            }
        }
    } else {
        match parse_string_body(s, i + 1) {
            Some((t, j)) => Some((seq![s[i]] + t, j)),
            None => None,
        }
    }
}

/// A quoted string at `i`.
pub open spec fn parse_string(s: Seq<char>, i: int) -> Option<(Seq<char>, int)> {
    if 0 <= i < s.len() && s[i] == '"' {
        parse_string_body(s, i + 1)
    } else {
        None
    }
}

/// A parsed string ends within the input, past its start.
pub proof fn lemma_parse_string_bounds(s: Seq<char>, i: int)
    requires
        0 <= i <= s.len(),
    ensures
        parse_string_body(s, i) matches Some(vj) ==> i < vj.1 <= s.len(),
    decreases s.len() - i,
{
    if 0 <= i < s.len() {
        if s[i] == '\\' && i + 1 < s.len() {
            if s[i + 1] == 'u' {
                if i + 6 <= s.len() {
                    lemma_parse_string_bounds(s, i + 6);
                }
            } else {
                lemma_parse_string_bounds(s, i + 2);
            }
        } else {
            lemma_parse_string_bounds(s, i + 1);
        }
    }
}

/// Relies on std's `char::from_u32`: the character with the given code
/// point, or `None` exactly when the value is a surrogate code point or
/// beyond the last code point.
pub assume_specification[ char::from_u32 ](v: u32) -> (r: Option<char>)
    ensures
        r matches Some(c) ==> c as u32 == v,
        (r is Some) <==> (v < 0xD800 || (0xE000 <= v && v <= 0x10FFFF)),
;

/// The numeric value of a hexadecimal digit, or `None` for any other
/// character.
fn hex_digit_val(c: char) -> (r: Option<u32>)
    ensures
        r matches Some(v) ==> is_hex_digit(c) && v == hex_val(c),
        r is None ==> !is_hex_digit(c),
{
    if '0' <= c && c <= '9' {
        Some(c as u32 - 48)
    } else if 'a' <= c && c <= 'f' {
        Some(c as u32 - 87)
    } else if 'A' <= c && c <= 'F' {
        Some(c as u32 - 55)
    } else {
        None
    }
}

/// The digit run from `i` accumulated onto `acc`, refused past the
/// magnitude bound, and the position after the run.
pub open spec fn parse_digits(s: Seq<char>, i: int, acc: int) -> Option<(int, int)>
    decreases s.len() - i,
{
    if 0 <= i < s.len() && is_digit(s[i]) {
        if acc * 10 + digit_val(s[i]) > 0xffff_ffff_ffff_ffff {
            None
        } else {
            parse_digits(s, i + 1, acc * 10 + digit_val(s[i]))
        }
    } else {
        Some((acc, i))
    }
}

/// An optionally signed decimal number at `i`, refused when it does not fit
/// the storable integer range.
pub open spec fn parse_int(s: Seq<char>, i: int) -> Option<(int, int)> {
    let neg = 0 <= i < s.len() && s[i] == '-';
    let j = if neg {
        i + 1
    } else {
        i
    };
    if 0 <= j < s.len() && is_digit(s[j]) {
        match parse_digits(s, j, 0) {
            Some((v, k)) => {
                let sv = if neg {
                    -v
                } else {
                    v
                };
                if -0x8000_0000_0000_0000 <= sv <= 0x7fff_ffff_ffff_ffff {
                    Some((sv, k))
                } else {
                    None
                }
            },
            None => None,
        }
    } else {
        None
    }
}

/// The literal `null`.
pub open spec fn null_lit() -> Seq<char> {
    seq!['n', 'u', 'l', 'l']
}

/// The position past `lit` when the input carries it at `i`.
pub open spec fn match_lit(s: Seq<char>, i: int, lit: Seq<char>) -> Option<int> {
    if 0 <= i && i + lit.len() <= s.len() && s.subrange(i, i + lit.len() as int) == lit {
        Some(i + lit.len() as int)
    } else {
        None
    }
}

/// A boolean literal at `i`.
pub open spec fn parse_bool(s: Seq<char>, i: int) -> Option<(bool, int)> {
    match match_lit(s, i, bool_lit(true)) {
        Some(j) => Some((true, j)),
        None => match match_lit(s, i, bool_lit(false)) {
            Some(j) => Some((false, j)),
            None => None,
        },
    }
}

/// One icon position record: an object with `position_x` and `position_y`,
/// in that order, and the position past its closing brace.
pub open spec fn parse_icon(s: Seq<char>, i: int) -> Option<((int, int), int)> {
    if !(0 <= i < s.len() && s[i] == '{') {
        None
    } else {
        match parse_string(s, skip_ws(s, i + 1)) {
            Some((k1, j1)) => if k1 == "position_x"@ {
                let j2 = skip_ws(s, j1);
                if 0 <= j2 < s.len() && s[j2] == ':' {
                    match parse_int(s, skip_ws(s, j2 + 1)) {
                        Some((x, j4)) => {
                            let j5 = skip_ws(s, j4);
                            if 0 <= j5 < s.len() && s[j5] == ',' {
                                match parse_string(s, skip_ws(s, j5 + 1)) {
                                    Some((k2, j7)) => if k2 == "position_y"@ {
                                        let j8 = skip_ws(s, j7);
                                        if 0 <= j8 < s.len() && s[j8] == ':' {
                                            match parse_int(s, skip_ws(s, j8 + 1)) {
                                                Some((y, j10)) => {
                                                    let j11 = skip_ws(s, j10);
                                                    if 0 <= j11 < s.len() && s[j11] == '}' {
                                                        Some(((x, y), j11 + 1))
                                                    } else {
                                                        None
                                                    }
                                                },
                                                None => None,
                                            }
                                        } else {
                                            None
                                        }
                                    } else {
                                        None
                                    },
                                    None => None,
                                }
                            } else {
                                None
                            }
                        },
                        None => None,
                    }
                } else {
                    None
                }
            } else {
                None
            },
            None => None,
        }
    }
}

/// The icon entries from the first name at `i` to the map's closing brace,
/// appended onto `acc`. The fuel bounds the entry count; the entry point
/// supplies more fuel than any input could consume.
pub open spec fn parse_entries(s: Seq<char>, i: int, acc: Seq<IconEntryV>, fuel: nat) -> Option<
    (Seq<IconEntryV>, int),
>
    decreases fuel,
{
    if fuel == 0 {
        None
    } else {
        match parse_string(s, i) {
            Some((name, j)) => {
                let j2 = skip_ws(s, j);
                if 0 <= j2 < s.len() && s[j2] == ':' {
                    match parse_icon(s, skip_ws(s, j2 + 1)) {
                        Some((xy, j4)) => {
                            let acc2 = acc.push(IconEntryV { name, x: xy.0, y: xy.1 });
                            let j5 = skip_ws(s, j4);
                            if 0 <= j5 < s.len() && s[j5] == ',' {
                                parse_entries(s, skip_ws(s, j5 + 1), acc2, (fuel - 1) as nat)
                            } else if 0 <= j5 < s.len() && s[j5] == '}' {
                                Some((acc2, j5 + 1))
                            } else {
                                None
                            }
                        },
                        None => None,
                    }
                } else {
                    None
                }
            },
            None => None,
        }
    }
}

/// The icons object at `i`.
pub open spec fn parse_icons(s: Seq<char>, i: int, fuel: nat) -> Option<(Seq<IconEntryV>, int)> {
    if 0 <= i < s.len() && s[i] == '{' {
        let j = skip_ws(s, i + 1);
        if 0 <= j < s.len() && s[j] == '}' {
            Some((Seq::empty(), j + 1))
        } else {
            parse_entries(s, j, Seq::empty(), fuel)
        }
    } else {
        None
    }
}

/// The layout with the field under `key` replaced by the value at `i`, and
/// the position after the value. An unknown key is an error.
pub open spec fn parse_field_value(s: Seq<char>, i: int, m: LayoutV, key: Seq<char>, fuel: nat) -> Option<
    (LayoutV, int),
> {
    if key == "background_color"@ {
        match parse_string(s, i) {
            Some((v, j)) => Some((LayoutV { background_color: v, ..m }, j)),
            None => None,
        }
    } else if key == "font_color"@ {
        match parse_string(s, i) {
            Some((v, j)) => Some((LayoutV { font_color: v, ..m }, j)),
            None => None,
        }
    } else if key == "font_size"@ {
        match parse_string(s, i) {
            Some((v, j)) => Some((LayoutV { font_size: v, ..m }, j)),
            None => None,
        }
    } else if key == "font_bold"@ {
        match match_lit(s, i, null_lit()) {
            Some(j) => Some((LayoutV { font_bold: None, ..m }, j)),
            None => match parse_bool(s, i) {
                Some((b, j)) => Some((LayoutV { font_bold: Some(b), ..m }, j)),
                None => None,
            },
        }
    } else if key == "cell_size"@ {
        match parse_int(s, i) {
            Some((v, j)) => Some((LayoutV { cell_size: v, ..m }, j)),
            None => None,
        }
    } else if key == "drilldown"@ {
        match parse_bool(s, i) {
            Some((b, j)) => Some((LayoutV { drilldown: b, ..m }, j)),
            None => None,
        }
    } else if key == "zoom"@ {
        match parse_bool(s, i) {
            Some((b, j)) => Some((LayoutV { zoom: b, ..m }, j)),
            None => None,
        }
    } else if key == "zoom_x"@ {
        match parse_int(s, i) {
            Some((v, j)) => Some((LayoutV { zoom_x: v, ..m }, j)),
            None => None,
        }
    } else if key == "zoom_y"@ {
        match parse_int(s, i) {
            Some((v, j)) => Some((LayoutV { zoom_y: v, ..m }, j)),
            None => None,
        }
    } else if key == "icons"@ {
        match parse_icons(s, i, fuel) {
            Some((es, j)) => Some((LayoutV { icons: es, ..m }, j)),
            None => None,
        }
    } else {
        None
    }
}

/// The fields from the key at `i` to the object's closing brace, each
/// overwriting its slot in `m`.
pub open spec fn parse_fields(s: Seq<char>, i: int, m: LayoutV, fuel: nat) -> Option<
    (LayoutV, int),
>
    decreases fuel,
{
    if fuel == 0 {
        None
    } else {
        match parse_string(s, i) {
            Some((key, j)) => {
                let j2 = skip_ws(s, j);
                if 0 <= j2 < s.len() && s[j2] == ':' {
                    match parse_field_value(s, skip_ws(s, j2 + 1), m, key, fuel) {
                        Some((m2, j4)) => {
                            let j5 = skip_ws(s, j4);
                            if 0 <= j5 < s.len() && s[j5] == ',' {
                                parse_fields(s, skip_ws(s, j5 + 1), m2, (fuel - 1) as nat)
                            } else if 0 <= j5 < s.len() && s[j5] == '}' {
                                Some((m2, j5 + 1))
                            } else {
                                None
                            }
                        },
                        None => None,
                    }
                } else {
                    None
                }
            },
            None => None,
        }
    }
}

/// The structural default a field keeps when the file does not set it: the
/// default background color, drilldown on, everything else empty or zero.
pub open spec fn default_layout_v() -> LayoutV {
    LayoutV {
        background_color: crate::DEFAULT_BG_COLOR@,
        font_color: Seq::empty(),
        font_size: Seq::empty(),
        font_bold: None,
        cell_size: 0,
        drilldown: true,
        zoom: false,
        zoom_x: 0,
        zoom_y: 0,
        icons: Seq::empty(),
    }
}

/// A sidecar file that deviates from the layout format.
#[derive(Clone, Copy, PartialEq, Eq, Structural, Debug)]
pub struct ParseError;

/// The characters of `s`, one vector element per character.
pub fn chars_of(s: &str) -> (r: Vec<char>)
    requires
        s@.len() < usize::MAX,
    ensures
        r@ == s@,
{
    let n = s.unicode_len();
    let mut out: Vec<char> = Vec::new();
    let mut i: usize = 0;
    while i < n
        invariant
            i <= n,
            n == s@.len(),
            out@ =~= s@.subrange(0, i as int),
        decreases n - i,
    {
        out.push(s.get_char(i));
        proof {
            assert(out@ =~= s@.subrange(0, i + 1));
        }
        i = i + 1;
    }
    proof {
        assert(s@.subrange(0, n as int) =~= s@);
    }
    out
}

/// The string holding exactly the characters of `v`.
pub fn chars_to_string(v: &Vec<char>) -> (r: String)
    ensures
        r@ == v@,
{
    let mut out = String::new();
    let mut i: usize = 0;
    while i < v.len()
        invariant
            i <= v@.len(),
            out@ =~= v@.subrange(0, i as int),
        decreases v@.len() - i,
    {
        out.push(v[i]);
        proof {
            assert(out@ =~= v@.subrange(0, i + 1));
        }
        i = i + 1;
    }
    proof {
        assert(v@.subrange(0, v@.len() as int) =~= v@);
    }
    out
}

/// Whether the characters of `v` spell exactly `lit`.
fn key_is(v: &Vec<char>, lit: &str) -> (r: bool)
    ensures
        r == (v@ == lit@),
{
    let n = lit.unicode_len();
    if v.len() != n {
        proof {
            assert(v@ != lit@);
        }
        return false;
    }
    let mut i: usize = 0;
    while i < n
        invariant
            i <= n,
            n == lit@.len(),
            n == v@.len(),
            forall|k: int| 0 <= k < i ==> v@[k] == lit@[k],
        decreases n - i,
    {
        if v[i] != lit.get_char(i) {
            proof {
                assert(v@[i as int] != lit@[i as int]);
            }
            return false;
        }
        i = i + 1;
    }
    proof {
        assert(v@ =~= lit@);
    }
    true
}

/// Position past the whitespace run at `i`.
fn skip_ws_exec(s: &Vec<char>, i: usize) -> (r: usize)
    requires
        i <= s@.len(),
    ensures
        r == skip_ws(s@, i as int),
        i <= r <= s@.len(),
{
    let mut j = i;
    while j < s.len() && (s[j] == ' ' || s[j] == '\n' || s[j] == '\t' || s[j] == '\r')
        invariant
            i <= j <= s@.len(),
            skip_ws(s@, i as int) == skip_ws(s@, j as int),
        decreases s@.len() - j,
    {
        j = j + 1;
    }
    j
}

/// Reads a quoted string's body from just after its opening quote.
fn parse_string_body_exec(s: &Vec<char>, i: usize) -> (r: Option<(Vec<char>, usize)>)
    requires
        i <= s@.len(),
    ensures
        match parse_string_body(s@, i as int) {
            Some(vj) => r matches Some(rvj) && rvj.0@ == vj.0 && rvj.1 == vj.1 && rvj.1 <= s@.len(),
            None => r is None,
        },
    decreases s@.len() - i,
{
    proof {
        lemma_parse_string_bounds(s@, i as int);
    }
    if i >= s.len() {
        return None;
    }
    let c = s[i];
    if c == '"' {
        return Some((Vec::new(), i + 1));
    }
    if c == '\\' {
        if i + 1 >= s.len() {
            return None;
        }
        let e = s[i + 1];
        if e == 'u' {
            if s.len() - i < 6 {
                proof {
                    assert(i + 6 > s@.len());
                }
                return None;
            }
            let v0 = match hex_digit_val(s[i + 2]) {
                Some(v) => v,
                None => {
                    return None;
                },
            };
            let v1 = match hex_digit_val(s[i + 3]) {
                Some(v) => v,
                None => {
                    return None;
                },
            };
            let v2 = match hex_digit_val(s[i + 4]) {
                Some(v) => v,
                None => {
                    return None;
                },
            };
            let v3 = match hex_digit_val(s[i + 5]) {
                Some(v) => v,
                None => {
                    return None;
                },
            };
            let v: u32 = v0 * 4096 + v1 * 256 + v2 * 16 + v3;
            proof {
                assert(hex4_at(s@, i + 2));
                assert(v == hex4_val(s@, i + 2));
            }
            if 0xD800 <= v && v < 0xE000 {
                return None;
            }
            let uc: char = match char::from_u32(v) {
                Some(c2) => c2,
                None => {
                    proof {
                        assert(false);
                    }
                    return None;
                },
            };
            proof {
                vstd::utf8::char_u32_cast(uc, v);
                assert((v as char) == uc);
                assert(uc == (hex4_val(s@, i + 2) as char));
            }
            return match parse_string_body_exec(s, i + 6) {
                Some((t, j)) => {
                    let mut t2 = t;
                    t2.insert(0, uc);
                    proof {
                        assert(t2@ =~= seq![uc] + t@);
                    }
                    Some((t2, j))
                },
                None => None,
            };
        }
        let uc: char = if e == '"' {
            '"'
        } else if e == '\\' {
            '\\'
        } else if e == '/' {
            '/'
        } else if e == 'n' {
            '\n'
        } else if e == 't' {
            '\t'
        } else if e == 'r' {
            '\r'
        } else if e == 'b' {
            '\u{8}'
        } else if e == 'f' {
            '\u{c}'
        } else {
            proof {
                assert(unescape_char(s@[i + 1]) is None);
            }
            return None;
        };
        proof {
            assert(unescape_char(s@[i + 1]) == Some(uc));
        }
        match parse_string_body_exec(s, i + 2) {
            Some((t, j)) => {
                let mut t2 = t;
                t2.insert(0, uc);
                proof {
                    assert(t2@ =~= seq![uc] + t@);
                }
                Some((t2, j))
            },
            None => None,
        }
    } else {
        match parse_string_body_exec(s, i + 1) {
            Some((t, j)) => {
                let mut t2 = t;
                t2.insert(0, c);
                proof {
                    assert(t2@ =~= seq![s@[i as int]] + t@);
                }
                Some((t2, j))
            },
            None => None,
        }
    }
}

/// Reads a quoted string at `i`.
fn parse_string_exec(s: &Vec<char>, i: usize) -> (r: Option<(Vec<char>, usize)>)
    requires
        i <= s@.len(),
    ensures
        match parse_string(s@, i as int) {
            Some(vj) => r matches Some(rvj) && rvj.0@ == vj.0 && rvj.1 == vj.1 && rvj.1 <= s@.len(),
            None => r is None,
        },
{
    if i < s.len() && s[i] == '"' {
        parse_string_body_exec(s, i + 1)
    } else {
        None
    }
}

/// Reads a digit run, accumulating onto `acc`.
fn parse_digits_exec(s: &Vec<char>, i: usize, acc: u64) -> (r: Option<(u64, usize)>)
    requires
        i <= s@.len(),
    ensures
        match parse_digits(s@, i as int, acc as int) {
            Some(vj) => r matches Some(rvj) && rvj.0 == vj.0 && rvj.1 == vj.1 && rvj.1 <= s@.len(),
            None => r is None,
        },
    decreases s@.len() - i,
{
    if i < s.len() && '0' <= s[i] && s[i] <= '9' {
        let d: u64 = (s[i] as u32 - 48) as u64;
        let wide: u128 = (acc as u128) * 10 + (d as u128);
        if wide > u64::MAX as u128 {
            proof {
                assert(acc as int * 10 + digit_val(s@[i as int]) > 0xffff_ffff_ffff_ffff);
            }
            None
        } else {
            proof {
                assert(wide as int == acc as int * 10 + digit_val(s@[i as int]));
            }
            parse_digits_exec(s, i + 1, wide as u64)
        }
    } else {
        Some((acc, i))
    }
}

/// Reads an optionally signed decimal number.
fn parse_int_exec(s: &Vec<char>, i: usize) -> (r: Option<(i64, usize)>)
    requires
        i <= s@.len(),
    ensures
        match parse_int(s@, i as int) {
            Some(vj) => r matches Some(rvj) && rvj.0 == vj.0 && rvj.1 == vj.1 && rvj.1 <= s@.len(),
            None => r is None,
        },
{
    let neg = i < s.len() && s[i] == '-';
    let j = if neg {
        i + 1
    } else {
        i
    };
    if j < s.len() && '0' <= s[j] && s[j] <= '9' {
        match parse_digits_exec(s, j, 0) {
            Some((v, k)) => {
                if neg {
                    if v > 0x8000_0000_0000_0000u64 {
                        None
                    } else if v == 0x8000_0000_0000_0000u64 {
                        Some((i64::MIN, k))
                    } else {
                        Some((-(v as i64), k))
                    }
                } else {
                    if v > i64::MAX as u64 {
                        None
                    } else {
                        Some((v as i64, k))
                    }
                }
            },
            None => None,
        }
    } else {
        None
    }
}

/// Matches the exact characters of `lit` at `i`.
fn try_lit(s: &Vec<char>, i: usize, lit: &str) -> (r: Option<usize>)
    requires
        i <= s@.len(),
    ensures
        r matches Some(j) ==> j <= s@.len() && match_lit(s@, i as int, lit@) == Some(j as int),
        r is None ==> match_lit(s@, i as int, lit@) is None,
{
    let n = lit.unicode_len();
    if s.len() - i < n {
        proof {
            assert(match_lit(s@, i as int, lit@) is None);
        }
        return None;
    }
    let mut k: usize = 0;
    while k < n
        invariant
            k <= n,
            n == lit@.len(),
            i + n <= s@.len(),
            forall|t: int| 0 <= t < k ==> s@[i + t] == lit@[t],
        decreases n - k,
    {
        if s[i + k] != lit.get_char(k) {
            proof {
                assert(s@.subrange(i as int, i + n) != lit@) by {
                    assert(s@.subrange(i as int, i + n)[k as int] != lit@[k as int]);
                }
            }
            return None;
        }
        k = k + 1;
    }
    proof {
        assert(s@.subrange(i as int, i + n) =~= lit@);
    }
    Some(i + n)
}

/// Reads a boolean literal.
fn parse_bool_exec(s: &Vec<char>, i: usize) -> (r: Option<(bool, usize)>)
    requires
        i <= s@.len(),
    ensures
        match parse_bool(s@, i as int) {
            Some(vj) => r matches Some(rvj) && rvj.0 == vj.0 && rvj.1 == vj.1 && rvj.1 <= s@.len(),
            None => r is None,
        },
{
    proof {
        reveal_strlit("true");
        reveal_strlit("false");
        assert(bool_lit(true) =~= "true"@);
        assert(bool_lit(false) =~= "false"@);
    }
    let t = try_lit(s, i, "true");
    proof {
        assert(bool_lit(true) == "true"@);
        assert(match_lit(s@, i as int, bool_lit(true)) == match_lit(s@, i as int, "true"@));
    }
    match t {
        Some(j) => Some((true, j)),
        None => {
            let f = try_lit(s, i, "false");
            proof {
                assert(bool_lit(false) == "false"@);
                assert(match_lit(s@, i as int, bool_lit(false)) == match_lit(
                    s@,
                    i as int,
                    "false"@,
                ));
            }
            match f {
                Some(j) => Some((false, j)),
                None => None,
            }
        },
    }
}

/// Reads one icon position record.
fn parse_icon_exec(s: &Vec<char>, i: usize) -> (r: Option<((i64, i64), usize)>)
    requires
        i <= s@.len(),
    ensures
        match parse_icon(s@, i as int) {
            Some(vj) => r matches Some(rvj) && rvj.0.0 == vj.0.0 && rvj.0.1 == vj.0.1 && rvj.1
                == vj.1 && rvj.1 <= s@.len(),
            None => r is None,
        },
{
    if !(i < s.len() && s[i] == '{') {
        return None;
    }
    let j0 = skip_ws_exec(s, i + 1);
    let (k1, j1) = match parse_string_exec(s, j0) {
        Some(p) => p,
        None => {
            return None;
        },
    };
    if !key_is(&k1, "position_x") {
        return None;
    }
    let j2 = skip_ws_exec(s, j1);
    if !(j2 < s.len() && s[j2] == ':') {
        return None;
    }
    let j3 = skip_ws_exec(s, j2 + 1);
    let (x, j4) = match parse_int_exec(s, j3) {
        Some(p) => p,
        None => {
            return None;
        },
    };
    let j5 = skip_ws_exec(s, j4);
    if !(j5 < s.len() && s[j5] == ',') {
        return None;
    }
    let j6 = skip_ws_exec(s, j5 + 1);
    let (k2, j7) = match parse_string_exec(s, j6) {
        Some(p) => p,
        None => {
            return None;
        },
    };
    if !key_is(&k2, "position_y") {
        return None;
    }
    let j8 = skip_ws_exec(s, j7);
    if !(j8 < s.len() && s[j8] == ':') {
        return None;
    }
    let j9 = skip_ws_exec(s, j8 + 1);
    let (y, j10) = match parse_int_exec(s, j9) {
        Some(p) => p,
        None => {
            return None;
        },
    };
    let j11 = skip_ws_exec(s, j10);
    if !(j11 < s.len() && s[j11] == '}') {
        return None;
    }
    Some(((x, y), j11 + 1))
}

/// Reads the icon entries onto `acc` until the map's closing brace.
fn parse_entries_exec(s: &Vec<char>, i: usize, acc: Vec<IconEntry>, fuel: usize) -> (r: Option<
    (Vec<IconEntry>, usize),
>)
    requires
        i <= s@.len(),
    ensures
        match parse_entries(s@, i as int, acc@.map_values(|e: IconEntry| e@), fuel as nat) {
            Some(vj) => r matches Some(rvj) && rvj.0@.map_values(|e: IconEntry| e@) == vj.0
                && rvj.1 == vj.1 && rvj.1 <= s@.len(),
            None => r is None,
        },
    decreases fuel,
{
    if fuel == 0 {
        return None;
    }
    let (name, j) = match parse_string_exec(s, i) {
        Some(p) => p,
        None => {
            return None;
        },
    };
    let j2 = skip_ws_exec(s, j);
    if !(j2 < s.len() && s[j2] == ':') {
        return None;
    }
    let j3 = skip_ws_exec(s, j2 + 1);
    let ((x, y), j4) = match parse_icon_exec(s, j3) {
        Some(p) => p,
        None => {
            return None;
        },
    };
    let mut acc2 = acc;
    acc2.push(
        IconEntry {
            name: chars_to_string(&name),
            icon: MemoIcon { position_x: x, position_y: y },
        },
    );
    proof {
        assert(acc2@.map_values(|e: IconEntry| e@) =~= acc@.map_values(|e: IconEntry| e@).push(
            IconEntryV { name: name@, x: x as int, y: y as int },
        ));
    }
    let j5 = skip_ws_exec(s, j4);
    if j5 < s.len() && s[j5] == ',' {
        let j6 = skip_ws_exec(s, j5 + 1);
        parse_entries_exec(s, j6, acc2, fuel - 1)
    } else if j5 < s.len() && s[j5] == '}' {
        Some((acc2, j5 + 1))
    } else {
        None
    }
}

/// Reads the value under `key` into its slot of `m`.
fn parse_field_value_exec(s: &Vec<char>, i: usize, m: MemoFolder, key: &Vec<char>, fuel: usize) -> (r: Option<
    (MemoFolder, usize),
>)
    requires
        i <= s@.len(),
    ensures
        match parse_field_value(s@, i as int, m@, key@, fuel as nat) {
            Some(vj) => r matches Some(rvj) && rvj.0@ == vj.0 && rvj.1 == vj.1 && rvj.1
                <= s@.len(),
            None => r is None,
        },
{
    if key_is(key, "background_color") {
        match parse_string_exec(s, i) {
            Some((v, j)) => {
                let mut m2 = m;
                m2.background_color = chars_to_string(&v);
                proof {
                    assert(m2@ =~= (LayoutV { background_color: v@, ..m@ }));
                }
                Some((m2, j))
            },
            None => None,
        }
    } else if key_is(key, "font_color") {
        match parse_string_exec(s, i) {
            Some((v, j)) => {
                let mut m2 = m;
                m2.font_color = chars_to_string(&v);
                proof {
                    assert(m2@ =~= (LayoutV { font_color: v@, ..m@ }));
                }
                Some((m2, j))
            },
            None => None,
        }
    } else if key_is(key, "font_size") {
        match parse_string_exec(s, i) {
            Some((v, j)) => {
                let mut m2 = m;
                m2.font_size = chars_to_string(&v);
                proof {
                    assert(m2@ =~= (LayoutV { font_size: v@, ..m@ }));
                }
                Some((m2, j))
            },
            None => None,
        }
    } else if key_is(key, "font_bold") {
        proof {
            reveal_strlit("null");
            assert(null_lit() =~= "null"@);
        }
        match try_lit(s, i, "null") {
            Some(j) => {
                let mut m2 = m;
                m2.font_bold = None;
                proof {
                    assert(m2@ =~= (LayoutV { font_bold: None, ..m@ }));
                }
                Some((m2, j))
            },
            None => match parse_bool_exec(s, i) {
                Some((b, j)) => {
                    let mut m2 = m;
                    m2.font_bold = Some(b);
                    proof {
                        assert(m2@ =~= (LayoutV { font_bold: Some(b), ..m@ }));
                    }
                    Some((m2, j))
                },
                None => None,
            },
        }
    } else if key_is(key, "cell_size") {
        match parse_int_exec(s, i) {
            Some((v, j)) => {
                let mut m2 = m;
                m2.cell_size = v;
                proof {
                    assert(m2@ =~= (LayoutV { cell_size: v as int, ..m@ }));
                }
                Some((m2, j))
            },
            None => None,
        }
    } else if key_is(key, "drilldown") {
        match parse_bool_exec(s, i) {
            Some((b, j)) => {
                let mut m2 = m;
                m2.drilldown = b;
                proof {
                    assert(m2@ =~= (LayoutV { drilldown: b, ..m@ }));
                }
                Some((m2, j))
            },
            None => None,
        }
    } else if key_is(key, "zoom") {
        match parse_bool_exec(s, i) {
            Some((b, j)) => {
                let mut m2 = m;
                m2.zoom = b;
                proof {
                    assert(m2@ =~= (LayoutV { zoom: b, ..m@ }));
                }
                Some((m2, j))
            },
            None => None,
        }
    } else if key_is(key, "zoom_x") {
        match parse_int_exec(s, i) {
            Some((v, j)) => {
                let mut m2 = m;
                m2.zoom_x = v;
                proof {
                    assert(m2@ =~= (LayoutV { zoom_x: v as int, ..m@ }));
                }
                Some((m2, j))
            },
            None => None,
        }
    } else if key_is(key, "zoom_y") {
        match parse_int_exec(s, i) {
            Some((v, j)) => {
                let mut m2 = m;
                m2.zoom_y = v;
                proof {
                    assert(m2@ =~= (LayoutV { zoom_y: v as int, ..m@ }));
                }
                Some((m2, j))
            },
            None => None,
        }
    } else if key_is(key, "icons") {
        if !(i < s.len() && s[i] == '{') {
            return None;
        }
        let j = skip_ws_exec(s, i + 1);
        let empty_icons: Vec<IconEntry> = Vec::new();
        proof {
            assert(empty_icons@.map_values(|e: IconEntry| e@) =~= Seq::<IconEntryV>::empty());
        }
        if j < s.len() && s[j] == '}' {
            let mut m2 = m;
            m2.icons = empty_icons;
            proof {
                assert(m2@ =~= (LayoutV { icons: Seq::<IconEntryV>::empty(), ..m@ }));
            }
            Some((m2, j + 1))
        } else {
            match parse_entries_exec(s, j, empty_icons, fuel) {
                Some((es, j2)) => {
                    let mut m2 = m;
                    m2.icons = es;
                    Some((m2, j2))
                },
                None => None,
            }
        }
    } else {
        None
    }
}

/// Reads the fields until the object's closing brace.
fn parse_fields_exec(s: &Vec<char>, i: usize, m: MemoFolder, fuel: usize) -> (r: Option<
    (MemoFolder, usize),
>)
    requires
        i <= s@.len(),
    ensures
        match parse_fields(s@, i as int, m@, fuel as nat) {
            Some(vj) => r matches Some(rvj) && rvj.0@ == vj.0 && rvj.1 == vj.1 && rvj.1
                <= s@.len(),
            None => r is None,
        },
    decreases fuel,
{
    if fuel == 0 {
        return None;
    }
    let (key, j) = match parse_string_exec(s, i) {
        Some(p) => p,
        None => {
            return None;
        },
    };
    let j2 = skip_ws_exec(s, j);
    if !(j2 < s.len() && s[j2] == ':') {
        return None;
    }
    let j3 = skip_ws_exec(s, j2 + 1);
    let (m2, j4) = match parse_field_value_exec(s, j3, m, &key, fuel) {
        Some(p) => p,
        None => {
            return None;
        },
    };
    let j5 = skip_ws_exec(s, j4);
    if j5 < s.len() && s[j5] == ',' {
        let j6 = skip_ws_exec(s, j5 + 1);
        parse_fields_exec(s, j6, m2, fuel - 1)
    } else if j5 < s.len() && s[j5] == '}' {
        Some((m2, j5 + 1))
    } else {
        None
    }
}

/// Parses a sidecar file's text into a layout. A file that deviates from
/// the format is refused with a `ParseError`, exactly when the abstract
/// parse yields nothing.
pub fn from_json(s: &str) -> (r: Result<MemoFolder, ParseError>)
    requires
        s@.len() < usize::MAX - 1,
    ensures
        match parse_layout(s@) {
            Some(mv) => r matches Ok(m) && m@ == mv,
            None => r matches Err(e) && e == ParseError,
        },
{
    let cs = chars_of(s);
    let i0 = skip_ws_exec(&cs, 0);
    if !(i0 < cs.len() && cs[i0] == '{') {
        return Err(ParseError);
    }
    let i1 = skip_ws_exec(&cs, i0 + 1);
    if i1 < cs.len() && cs[i1] == '}' {
        if skip_ws_exec(&cs, i1 + 1) == cs.len() {
            let m = MemoFolder::structural_default();
            proof {
                assert(m.icons@.map_values(|e: IconEntry| e@) =~= Seq::<IconEntryV>::empty());
                assert(m@ =~= default_layout_v());
            }
            return Ok(m);
        } else {
            return Err(ParseError);
        }
    }
    let m0 = MemoFolder::structural_default();
    proof {
        assert(m0.icons@.map_values(|e: IconEntry| e@) =~= Seq::<IconEntryV>::empty());
        assert(m0@ =~= default_layout_v());
    }
    match parse_fields_exec(&cs, i1, m0, cs.len() + 1) {
        Some((m, j)) => {
            if skip_ws_exec(&cs, j) == cs.len() {
                Ok(m)
            } else {
                Err(ParseError)
            }
        },
        None => Err(ParseError),
    }
}

/// The layout a sidecar file holds, or `None` when the text is malformed.
pub open spec fn parse_layout(s: Seq<char>) -> Option<LayoutV> {
    let i0 = skip_ws(s, 0);
    if 0 <= i0 < s.len() && s[i0] == '{' {
        let i1 = skip_ws(s, i0 + 1);
        if 0 <= i1 < s.len() && s[i1] == '}' {
            if skip_ws(s, i1 + 1) == s.len() {
                Some(default_layout_v())
            } else {
                None
            }
        } else {
            match parse_fields(s, i1, default_layout_v(), (s.len() + 1) as nat) {
                Some((m, j)) => if skip_ws(s, j) == s.len() {
                    Some(m)
                } else {
                    None
                },
                None => None,
            }
        }
    } else {
        None
    }
}

} // verus!
