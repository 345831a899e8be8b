//! The sidecar file codec: a stable textual encoding of the persisted
//! layout, one field per line, and the parser that reads it back.
//!
//! The format is a JSON object with the layout's nine scalar fields and an
//! `icons` object mapping each name to its stored position. The parser
//! accepts the fields in any order and with any amount of whitespace
//! between tokens; a field left out keeps its structural default. A file
//! that deviates from the format is a hard parse error, never silently
//! defaulted: discarding a user's stored layout would be worse than a
//! visible failure.

use vstd::prelude::*;

use crate::settings::{IconEntryV, LayoutV, MemoFolder};

verus! {

/// Relies on std's `String::push`: appends the given character to the end
/// of the string.
pub assume_specification[ String::push ](s: &mut String, ch: char)
    ensures
        final(s)@ == old(s)@.push(ch),
;

/// The decimal digit character for `d`.
pub open spec fn digit_char(d: int) -> char {
    if d == 0 {
        '0'
    } else if d == 1 {
        '1'
    } else if d == 2 {
        '2'
    } else if d == 3 {
        '3'
    } else if d == 4 {
        '4'
    } else if d == 5 {
        '5'
    } else if d == 6 {
        '6'
    } else if d == 7 {
        '7'
    } else if d == 8 {
        '8'
    } else {
        '9'
    }
}

/// Whether `c` is a decimal digit.
pub open spec fn is_digit(c: char) -> bool {
    '0' <= c && c <= '9'
}

/// The numeric value of the digit `c`.
pub open spec fn digit_val(c: char) -> int {
    c as int - 48
}

/// The decimal digits of a nonnegative number, most significant first.
pub open spec fn dec_u64(n: int) -> Seq<char>
    decreases n,
{
    if n < 10 {
        seq![digit_char(n)]
    } else {
        dec_u64(n / 10).push(digit_char(n % 10))
    }
}

/// The decimal encoding of an integer: a minus sign and the magnitude.
pub open spec fn dec_i64(n: int) -> Seq<char> {
    if n < 0 {
        seq!['-'] + dec_u64(-n)
    } else {
        dec_u64(n)
    }
}

/// Whether the string encoding writes `c` behind a backslash.
pub open spec fn needs_escape(c: char) -> bool {
    c == '"' || c == '\\' || c == '\n' || c == '\t' || c == '\r'
}

/// The encoding of one character inside a quoted string.
pub open spec fn esc_char(c: char) -> Seq<char> {
    if c == '"' {
        seq!['\\', '"']
    } else if c == '\\' {
        seq!['\\', '\\']
    } else if c == '\n' {
        seq!['\\', 'n']
    } else if c == '\t' {
        seq!['\\', 't']
    } else if c == '\r' {
        seq!['\\', 'r']
    } else {
        seq![c]
    }
}

/// The body of a quoted string: each character escaped as needed.
pub open spec fn escape_str(s: Seq<char>) -> Seq<char>
    decreases s.len(),
{
    if s.len() == 0 {
        Seq::empty()
    } else {
        esc_char(s[0]) + escape_str(s.drop_first())
    }
}

/// Appending one character extends the escaped body at its end.
pub proof fn lemma_escape_push(s: Seq<char>, c: char)
    ensures
        escape_str(s.push(c)) == escape_str(s) + esc_char(c),
    decreases s.len(),
{
    if s.len() == 0 {
        assert(s.push(c)[0] == c);
        assert(s.push(c).drop_first() =~= Seq::<char>::empty());
        assert(escape_str(s.push(c)) == esc_char(c) + escape_str(Seq::<char>::empty()));
        assert(esc_char(c) + Seq::<char>::empty() =~= esc_char(c));
        assert(escape_str(s) + esc_char(c) =~= esc_char(c));
    } else {
        assert(s.push(c).drop_first() =~= s.drop_first().push(c));
        assert(s.push(c)[0] == s[0]);
        lemma_escape_push(s.drop_first(), c);
        assert(escape_str(s.push(c)) == esc_char(s[0]) + (escape_str(s.drop_first()) + esc_char(
            c,
        )));
        assert(esc_char(s[0]) + (escape_str(s.drop_first()) + esc_char(c)) =~= (esc_char(s[0])
            + escape_str(s.drop_first())) + esc_char(c));
    }
}

/// A quoted, escaped string.
pub open spec fn json_str(s: Seq<char>) -> Seq<char> {
    seq!['"'] + escape_str(s) + seq!['"']
}

/// A boolean literal.
pub open spec fn bool_lit(b: bool) -> Seq<char> {
    if b {
        seq!['t', 'r', 'u', 'e']
    } else {
        seq!['f', 'a', 'l', 's', 'e']
    }
}

/// An optional boolean: `null` when unset.
pub open spec fn opt_bool_lit(b: Option<bool>) -> Seq<char> {
    match b {
        Some(v) => bool_lit(v),
        None => seq!['n', 'u', 'l', 'l'],
    }
}

/// One `"key": value` pair.
pub open spec fn kv(key: Seq<char>, val: Seq<char>) -> Seq<char> {
    seq!['"'] + key + seq!['"', ':', ' '] + val
}

/// One icon position record.
pub open spec fn icon_rec(x: int, y: int) -> Seq<char> {
    seq!['{'] + kv("position_x"@, dec_i64(x)) + seq![','] + kv("position_y"@, dec_i64(y))
        + seq!['}']
}

/// One icon entry: the quoted name and its position record.
pub open spec fn entry_json(e: IconEntryV) -> Seq<char> {
    json_str(e.name) + seq![':'] + icon_rec(e.x, e.y)
}

/// The icon entries joined by commas.
pub open spec fn icons_body(es: Seq<IconEntryV>) -> Seq<char>
    decreases es.len(),
{
    if es.len() == 0 {
        Seq::empty()
    } else if es.len() == 1 {
        entry_json(es[0])
    } else {
        icons_body(es.drop_last()) + seq![','] + entry_json(es.last())
    }
}

/// The icons object.
pub open spec fn icons_json(es: Seq<IconEntryV>) -> Seq<char> {
    seq!['{'] + icons_body(es) + seq!['}']
}

/// The opening brace and the nine scalar field lines of the encoding.
pub open spec fn fields_json(m: LayoutV) -> Seq<char> {
    seq!['{', '\n'] + kv("background_color"@, json_str(m.background_color)) + seq![',', '\n'] + kv(
        "font_color"@,
        json_str(m.font_color),
    ) + seq![',', '\n'] + kv("font_size"@, json_str(m.font_size)) + seq![',', '\n'] + kv(
        "font_bold"@,
        opt_bool_lit(m.font_bold),
    ) + seq![',', '\n'] + kv("cell_size"@, dec_i64(m.cell_size)) + seq![',', '\n'] + kv(
        "drilldown"@,
        bool_lit(m.drilldown),
    ) + seq![',', '\n'] + kv("zoom"@, bool_lit(m.zoom)) + seq![',', '\n'] + kv(
        "zoom_x"@,
        dec_i64(m.zoom_x),
    ) + seq![',', '\n'] + kv("zoom_y"@, dec_i64(m.zoom_y)) + seq![',', '\n']
}

/// The stable textual encoding of a layout: one field per line, every field
/// always written, the icon map last.
pub open spec fn json_of(m: LayoutV) -> Seq<char> {
    fields_json(m) + kv("icons"@, icons_json(m.icons)) + seq!['\n', '}']
}

/// Appends the decimal digits of `n`.
fn push_u64(out: &mut String, n: u64)
    ensures
        final(out)@ == old(out)@ + dec_u64(n as int),
    decreases n,
{
    if n >= 10 {
        push_u64(out, n / 10);
    }
    let d = n % 10;
    let c: char = if d == 0 {
        '0'
    } else if d == 1 {
        '1'
    } else if d == 2 {
        '2'
    } else if d == 3 {
        '3'
    } else if d == 4 {
        '4'
    } else if d == 5 {
        '5'
    } else if d == 6 {
        '6'
    } else if d == 7 {
        '7'
    } else if d == 8 {
        '8'
    } else {
        '9'
    };
    out.push(c);
    proof {
        if n >= 10 {
            assert(final(out)@ =~= old(out)@ + dec_u64(n as int));
        } else {
            assert(final(out)@ =~= old(out)@ + dec_u64(n as int));
        }
    }
}

/// Appends the decimal encoding of `n`.
fn push_i64(out: &mut String, n: i64)
    ensures
        final(out)@ == old(out)@ + dec_i64(n as int),
{
    if n < 0 {
        out.push('-');
        let mag: u64 = ((-(n + 1)) as u64) + 1;
        push_u64(out, mag);
        proof {
            assert(mag as int == -(n as int));
            assert(final(out)@ =~= old(out)@ + dec_i64(n as int));
        }
    } else {
        push_u64(out, n as u64);
    }
}

/// Appends `s` as a quoted, escaped string.
fn push_quoted(out: &mut String, s: &str)
    requires
        s@.len() < usize::MAX,
    ensures
        final(out)@ == old(out)@ + json_str(s@),
{
    out.push('"');
    let n = s.unicode_len();
    let mut i: usize = 0;
    proof {
        assert(s@.subrange(0, 0) =~= Seq::<char>::empty());
    }
    while i < n
        invariant
            i <= n,
            n == s@.len(),
            out@ == old(out)@ + seq!['"'] + escape_str(s@.subrange(0, i as int)),
        decreases n - i,
    {
        let c = s.get_char(i);
        proof {
            assert(s@.subrange(0, i + 1) =~= s@.subrange(0, i as int).push(s@[i as int]));
            lemma_escape_push(s@.subrange(0, i as int), s@[i as int]);
        }
        if c == '"' {
            out.push('\\');
            out.push('"');
        } else if c == '\\' {
            out.push('\\');
            out.push('\\');
        } else if c == '\n' {
            out.push('\\');
            out.push('n');
        } else if c == '\t' {
            out.push('\\');
            out.push('t');
        } else if c == '\r' {
            out.push('\\');
            out.push('r');
        } else {
            out.push(c);
        }
        proof {
            assert(out@ =~= old(out)@ + seq!['"'] + escape_str(s@.subrange(0, i + 1)));
        }
        i = i + 1;
    }
    out.push('"');
    proof {
        assert(s@.subrange(0, n as int) =~= s@);
        assert(final(out)@ =~= old(out)@ + json_str(s@));
    }
}

/// Appends one `"key": value` prefix up to and including the colon and
/// space; the caller appends the value.
fn push_key(out: &mut String, key: &str)
    ensures
        final(out)@ == old(out)@ + seq!['"'] + key@ + seq!['"', ':', ' '],
{
    out.push('"');
    out.append(key);
    out.push('"');
    out.push(':');
    out.push(' ');
    proof {
        assert(final(out)@ =~= old(out)@ + seq!['"'] + key@ + seq!['"', ':', ' ']);
    }
}

/// Appends one string-valued field line.
fn push_str_field(out: &mut String, key: &str, val: &str)
    requires
        val@.len() < usize::MAX,
    ensures
        final(out)@ == old(out)@ + kv(key@, json_str(val@)) + seq![',', '\n'],
{
    push_key(out, key);
    push_quoted(out, val);
    out.push(',');
    out.push('\n');
    proof {
        assert(final(out)@ =~= old(out)@ + kv(key@, json_str(val@)) + seq![',', '\n']);
    }
}

/// Appends one integer-valued field line.
fn push_int_field(out: &mut String, key: &str, v: i64)
    ensures
        final(out)@ == old(out)@ + kv(key@, dec_i64(v as int)) + seq![',', '\n'],
{
    push_key(out, key);
    push_i64(out, v);
    out.push(',');
    out.push('\n');
    proof {
        assert(final(out)@ =~= old(out)@ + kv(key@, dec_i64(v as int)) + seq![',', '\n']);
    }
}

/// Appends one boolean-valued field line.
fn push_bool_field(out: &mut String, key: &str, b: bool)
    ensures
        final(out)@ == old(out)@ + kv(key@, bool_lit(b)) + seq![',', '\n'],
{
    push_key(out, key);
    push_bool(out, b);
    out.push(',');
    out.push('\n');
    proof {
        assert(final(out)@ =~= old(out)@ + kv(key@, bool_lit(b)) + seq![',', '\n']);
    }
}

/// Appends one optional-boolean field line, `null` when unset.
fn push_opt_bool_field(out: &mut String, key: &str, b: Option<bool>)
    ensures
        final(out)@ == old(out)@ + kv(key@, opt_bool_lit(b)) + seq![',', '\n'],
{
    push_key(out, key);
    match b {
        Some(v) => push_bool(out, v),
        None => {
            out.push('n');
            out.push('u');
            out.push('l');
            out.push('l');
        },
    }
    out.push(',');
    out.push('\n');
    proof {
        assert(final(out)@ =~= old(out)@ + kv(key@, opt_bool_lit(b)) + seq![',', '\n']);
    }
}

/// Appends a boolean literal.
fn push_bool(out: &mut String, b: bool)
    ensures
        final(out)@ == old(out)@ + bool_lit(b),
{
    if b {
        out.push('t');
        out.push('r');
        out.push('u');
        out.push('e');
    } else {
        out.push('f');
        out.push('a');
        out.push('l');
        out.push('s');
        out.push('e');
    }
    proof {
        assert(final(out)@ =~= old(out)@ + bool_lit(b));
    }
}

/// Appends one icon entry.
fn push_entry(out: &mut String, name: &str, x: i64, y: i64)
    requires
        name@.len() < usize::MAX,
    ensures
        final(out)@ == old(out)@ + entry_json(
            IconEntryV { name: name@, x: x as int, y: y as int },
        ),
{
    push_quoted(out, name);
    out.push(':');
    out.push('{');
    push_key(out, "position_x");
    push_i64(out, x);
    out.push(',');
    push_key(out, "position_y");
    push_i64(out, y);
    out.push('}');
    proof {
        assert(final(out)@ =~= old(out)@ + entry_json(
            IconEntryV { name: name@, x: x as int, y: y as int },
        ));
    }
}

/// Serializes the scalar field lines of a layout.
fn to_json_fields(m: &MemoFolder) -> (r: String)
    requires
        m.background_color@.len() < usize::MAX,
        m.font_color@.len() < usize::MAX,
        m.font_size@.len() < usize::MAX,
    ensures
        r@ == fields_json(m@),
{
    let mut out = String::new();
    out.push('{');
    out.push('\n');
    push_str_field(&mut out, "background_color", m.background_color.as_str());
    push_str_field(&mut out, "font_color", m.font_color.as_str());
    push_str_field(&mut out, "font_size", m.font_size.as_str());
    push_opt_bool_field(&mut out, "font_bold", m.font_bold);
    push_int_field(&mut out, "cell_size", m.cell_size);
    push_bool_field(&mut out, "drilldown", m.drilldown);
    push_bool_field(&mut out, "zoom", m.zoom);
    push_int_field(&mut out, "zoom_x", m.zoom_x);
    push_int_field(&mut out, "zoom_y", m.zoom_y);
    proof {
        assert(out@ =~= fields_json(m@));
    }
    out
}

/// Serializes a layout to its stable textual encoding.
#[verifier::rlimit(60)]
pub fn to_json(m: &MemoFolder) -> (r: String)
    requires
        m.background_color@.len() < usize::MAX,
        m.font_color@.len() < usize::MAX,
        m.font_size@.len() < usize::MAX,
        forall|k: int| 0 <= k < m.icons@.len() ==> (#[trigger] m.icons@[k]).name@.len() < usize::MAX,
    ensures
        r@ == json_of(m@),
{
    let mut out = to_json_fields(m);
    push_key(&mut out, "icons");
    let ghost before_icons = out@;
    out.push('{');
    let n = m.icons.len();
    let mut i: usize = 0;
    while i < n
        invariant
            i <= n,
            n == m.icons@.len(),
            forall|k: int|
                0 <= k < m.icons@.len() ==> (#[trigger] m.icons@[k]).name@.len() < usize::MAX,
            out@ == before_icons + seq!['{'] + icons_body(
                m@.icons.subrange(0, i as int),
            ),
        decreases n - i,
    {
        if i > 0 {
            out.push(',');
        }
        push_entry(&mut out, m.icons[i].name.as_str(), m.icons[i].icon.position_x, m.icons[i].icon.position_y);
        proof {
            assert(m@.icons[i as int] == m.icons@[i as int]@);
            assert(m@.icons.subrange(0, i + 1).drop_last() =~= m@.icons.subrange(0, i as int));
            assert(m@.icons.subrange(0, i + 1).last() == m@.icons[i as int]);
            assert(out@ =~= before_icons + seq!['{'] + icons_body(m@.icons.subrange(0, i + 1)));
        }
        i = i + 1;
    }
    out.push('}');
    out.push('\n');
    out.push('}');
    proof {
        assert(m@.icons.subrange(0, n as int) =~= m@.icons);
        assert(out@ =~= json_of(m@));
    }
    out
}

} // verus!
