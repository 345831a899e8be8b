//! The save/load round trip: parsing what the encoder wrote yields the
//! written layout back, field for field.
//!
//! The proof walks the parser through the encoding one token at a time.
//! `at` pins a chunk of the encoding at a position; each lemma shows that
//! one parser production consumes exactly its chunk and yields the value
//! the encoder wrote.

use vstd::prelude::*;

use crate::codec::{
    bool_lit, dec_i64, dec_u64, digit_char, digit_val, entry_json, esc_char, escape_str,
    fields_json, icon_rec, icons_body, icons_json, is_digit, json_of, json_str, kv, needs_escape,
    opt_bool_lit,
};
use crate::parse::{
    default_layout_v, is_ws, match_lit, null_lit, parse_bool, parse_digits, parse_entries,
    parse_fields, parse_field_value, parse_icon, parse_icons, parse_int, parse_layout,
    parse_string, parse_string_body, skip_ws, unescape_char,
};
use crate::settings::{IconEntryV, LayoutV, MemoFolder};

verus! {

/// Whether the text carries exactly `chunk` starting at `i`.
pub open spec fn at(cs: Seq<char>, i: int, chunk: Seq<char>) -> bool {
    0 <= i && i + chunk.len() <= cs.len() && cs.subrange(i, i + chunk.len()) == chunk
}

/// A chunk of two parts pins each part at its own position.
pub proof fn lemma_at_split(cs: Seq<char>, i: int, a: Seq<char>, b: Seq<char>)
    requires
        at(cs, i, a + b),
    ensures
        at(cs, i, a),
        at(cs, i + a.len(), b),
{
    assert(cs.subrange(i, i + a.len()) =~= a) by {
        assert forall|k: int| 0 <= k < a.len() implies cs.subrange(i, i + a.len())[k] == a[k] by {
            assert(cs.subrange(i, i + (a + b).len())[k] == (a + b)[k]);
        }
    }
    assert(cs.subrange(i + a.len(), i + a.len() + b.len()) =~= b) by {
        assert forall|k: int| 0 <= k < b.len() implies cs.subrange(
            i + a.len(),
            i + a.len() + b.len(),
        )[k] == b[k] by {
            assert(cs.subrange(i, i + (a + b).len())[a.len() + k] == (a + b)[a.len() + k]);
        }
    }
}

/// Each character of a pinned chunk stands at its offset in the text.
pub proof fn lemma_at_index(cs: Seq<char>, i: int, chunk: Seq<char>, k: int)
    requires
        at(cs, i, chunk),
        0 <= k < chunk.len(),
    ensures
        cs[i + k] == chunk[k],
{
    assert(cs.subrange(i, i + chunk.len())[k] == chunk[k]);
}

/// Skipping whitespace from a non-whitespace character goes nowhere.
pub proof fn lemma_skip_ws_stop(cs: Seq<char>, i: int)
    requires
        0 <= i,
        i >= cs.len() || !is_ws(cs[i]),
    ensures
        skip_ws(cs, i) == i,
{
}

/// Skipping whitespace from one whitespace character steps past it.
pub proof fn lemma_skip_ws_one(cs: Seq<char>, i: int)
    requires
        0 <= i < cs.len(),
        is_ws(cs[i]),
        i + 1 >= cs.len() || !is_ws(cs[i + 1]),
    ensures
        skip_ws(cs, i) == i + 1,
{
    lemma_skip_ws_stop(cs, i + 1);
}

/// The string parser reads a quoted, escaped chunk back to its characters.
pub proof fn lemma_parse_sbody_at(cs: Seq<char>, i: int, v: Seq<char>)
    requires
        at(cs, i, escape_str(v) + seq!['"']),
    ensures
        parse_string_body(cs, i) == Some((v, i + escape_str(v).len() + 1)),
    decreases v.len(),
{
    if v.len() == 0 {
        assert(escape_str(v) + seq!['"'] =~= seq!['"']);
        lemma_at_index(cs, i, seq!['"'], 0);
    } else {
        let e0 = esc_char(v[0]);
        let rest = escape_str(v.drop_first()) + seq!['"'];
        assert(escape_str(v) + seq!['"'] =~= e0 + rest);
        lemma_at_split(cs, i, e0, rest);
        lemma_parse_sbody_at(cs, i + e0.len(), v.drop_first());
        if needs_escape(v[0]) {
            lemma_at_index(cs, i, e0, 0);
            lemma_at_index(cs, i, e0, 1);
            assert(cs[i] == '\\');
            assert(unescape_char(cs[i + 1]) == Some(v[0]));
            assert(parse_string_body(cs, i) == Some(
                (seq![v[0]] + v.drop_first(), i + escape_str(v).len() + 1),
            ));
            assert(seq![v[0]] + v.drop_first() =~= v);
        } else {
            lemma_at_index(cs, i, e0, 0);
            assert(cs[i] == v[0]);
            assert(cs[i] != '"' && cs[i] != '\\');
            assert(parse_string_body(cs, i) == Some(
                (seq![v[0]] + v.drop_first(), i + escape_str(v).len() + 1),
            ));
            assert(seq![v[0]] + v.drop_first() =~= v);
        }
    }
}

/// The string parser reads a written string back exactly.
pub proof fn lemma_parse_string_at(cs: Seq<char>, i: int, v: Seq<char>)
    requires
        at(cs, i, json_str(v)),
    ensures
        parse_string(cs, i) == Some((v, i + json_str(v).len())),
{
    assert(json_str(v) =~= seq!['"'] + (escape_str(v) + seq!['"']));
    lemma_at_split(cs, i, seq!['"'], escape_str(v) + seq!['"']);
    lemma_at_index(cs, i, seq!['"'], 0);
    lemma_parse_sbody_at(cs, i + 1, v);
}

/// A string whose characters need no escaping encodes as itself.
pub proof fn lemma_escape_id(v: Seq<char>)
    requires
        forall|k: int| 0 <= k < v.len() ==> !needs_escape(v[k]),
    ensures
        escape_str(v) == v,
    decreases v.len(),
{
    if v.len() > 0 {
        lemma_escape_id(v.drop_first());
        assert(esc_char(v[0]) =~= seq![v[0]]);
        assert(seq![v[0]] + v.drop_first() =~= v);
    }
}

/// The digits of a nonnegative number are digits, starting with one.
pub proof fn lemma_dec_digits(n: int)
    requires
        n >= 0,
    ensures
        dec_u64(n).len() >= 1,
        forall|k: int| 0 <= k < dec_u64(n).len() ==> is_digit(#[trigger] dec_u64(n)[k]),
        forall|k: int| 0 <= k < dec_u64(n).len() ==> !needs_escape(#[trigger] dec_u64(n)[k]),
    decreases n,
{
    if n < 10 {
        assert(is_digit(digit_char(n)));
    } else {
        lemma_dec_digits(n / 10);
        assert(is_digit(digit_char(n % 10)));
        assert(forall|k: int|
            0 <= k < dec_u64(n / 10).len() ==> #[trigger] dec_u64(n)[k] == dec_u64(n / 10)[k]);
        assert(dec_u64(n).last() == digit_char(n % 10));
    }
}

/// The value a digit run extends an accumulator to, front first.
pub open spec fn ext_val(acc: int, ds: Seq<char>) -> int
    decreases ds.len(),
{
    if ds.len() == 0 {
        acc
    } else {
        ext_val(acc * 10 + digit_val(ds[0]), ds.drop_first())
    }
}

/// Extending never shrinks a nonnegative accumulator.
pub proof fn lemma_ext_val_grows(acc: int, ds: Seq<char>)
    requires
        acc >= 0,
        forall|k: int| 0 <= k < ds.len() ==> is_digit(#[trigger] ds[k]),
    ensures
        ext_val(acc, ds) >= acc,
    decreases ds.len(),
{
    if ds.len() > 0 {
        assert(is_digit(ds[0]));
        assert(digit_val(ds[0]) >= 0);
        lemma_ext_val_grows(acc * 10 + digit_val(ds[0]), ds.drop_first());
    }
}

/// A digit appended at the end multiplies the extension by ten.
pub proof fn lemma_ext_val_push(acc: int, ds: Seq<char>, d: char)
    ensures
        ext_val(acc, ds.push(d)) == ext_val(acc, ds) * 10 + digit_val(d),
    decreases ds.len(),
{
    if ds.len() == 0 {
        assert(ds.push(d)[0] == d);
        assert(ds.push(d).drop_first() =~= Seq::<char>::empty());
        assert(ext_val(acc * 10 + digit_val(d), Seq::<char>::empty()) == acc * 10 + digit_val(d));
        assert(ext_val(acc, ds) == acc);
    } else {
        assert(ds.push(d)[0] == ds[0]);
        assert(ds.push(d).drop_first() =~= ds.drop_first().push(d));
        lemma_ext_val_push(acc * 10 + digit_val(ds[0]), ds.drop_first(), d);
    }
}

/// The digits of `n` extend an empty accumulator to exactly `n`.
pub proof fn lemma_ext_val_dec(n: int)
    requires
        n >= 0,
    ensures
        ext_val(0, dec_u64(n)) == n,
    decreases n,
{
    if n < 10 {
        assert(dec_u64(n) =~= Seq::<char>::empty().push(digit_char(n)));
        lemma_ext_val_push(0, Seq::<char>::empty(), digit_char(n));
        assert(digit_val(digit_char(n)) == n);
    } else {
        lemma_ext_val_dec(n / 10);
        lemma_ext_val_push(0, dec_u64(n / 10), digit_char(n % 10));
        assert(digit_val(digit_char(n % 10)) == n % 10);
    }
}

/// The digit parser reads a pinned digit run, stopped by a non-digit,
/// back to the extended accumulator.
pub proof fn lemma_parse_digits_at(cs: Seq<char>, i: int, ds: Seq<char>, acc: int)
    requires
        at(cs, i, ds),
        forall|k: int| 0 <= k < ds.len() ==> is_digit(#[trigger] ds[k]),
        i + ds.len() >= cs.len() || !is_digit(cs[i + ds.len()]),
        acc >= 0,
        ext_val(acc, ds) <= 0xffff_ffff_ffff_ffff,
    ensures
        parse_digits(cs, i, acc) == Some((ext_val(acc, ds), i + ds.len())),
    decreases ds.len(),
{
    if ds.len() == 0 {
    } else {
        lemma_at_index(cs, i, ds, 0);
        assert(cs[i] == ds[0]);
        let acc2 = acc * 10 + digit_val(ds[0]);
        lemma_ext_val_grows(acc2, ds.drop_first());
        assert(ds =~= seq![ds[0]] + ds.drop_first());
        lemma_at_split(cs, i, seq![ds[0]], ds.drop_first());
        lemma_parse_digits_at(cs, i + 1, ds.drop_first(), acc2);
    }
}

/// The number parser reads a written integer back exactly.
pub proof fn lemma_parse_int_at(cs: Seq<char>, i: int, n: int)
    requires
        at(cs, i, dec_i64(n)),
        -0x8000_0000_0000_0000 <= n <= 0x7fff_ffff_ffff_ffff,
        i + dec_i64(n).len() >= cs.len() || !is_digit(cs[i + dec_i64(n).len()]),
    ensures
        parse_int(cs, i) == Some((n, i + dec_i64(n).len())),
{
    if n < 0 {
        lemma_dec_digits(-n);
        assert(dec_i64(n) =~= seq!['-'] + dec_u64(-n));
        lemma_at_split(cs, i, seq!['-'], dec_u64(-n));
        lemma_at_index(cs, i, seq!['-'], 0);
        assert(cs[i] == '-');
        lemma_at_index(cs, i + 1, dec_u64(-n), 0);
        assert(is_digit(cs[i + 1]));
        lemma_ext_val_dec(-n);
        lemma_parse_digits_at(cs, i + 1, dec_u64(-n), 0);
    } else {
        lemma_dec_digits(n);
        lemma_at_index(cs, i, dec_u64(n), 0);
        assert(is_digit(cs[i]));
        assert(cs[i] != '-');
        lemma_ext_val_dec(n);
        lemma_parse_digits_at(cs, i, dec_u64(n), 0);
    }
}

/// A written `"key": value` pair parses to its key, shows its colon and
/// space, and pins the value chunk after them.
pub proof fn lemma_parse_kv(cs: Seq<char>, i: int, key: Seq<char>, val: Seq<char>)
    requires
        at(cs, i, kv(key, val)),
        forall|k: int| 0 <= k < key.len() ==> !needs_escape(#[trigger] key[k]),
    ensures
        parse_string(cs, i) == Some((key, i + key.len() + 2)),
        cs[i + key.len() + 2] == ':',
        cs[i + key.len() + 3] == ' ',
        at(cs, i + key.len() + 4, val),
        kv(key, val).len() == key.len() + val.len() + 4,
{
    lemma_escape_id(key);
    assert(kv(key, val) =~= json_str(key) + (seq![':', ' '] + val));
    lemma_at_split(cs, i, json_str(key), seq![':', ' '] + val);
    lemma_parse_string_at(cs, i, key);
    lemma_at_split(cs, i + key.len() + 2, seq![':', ' '], val);
    lemma_at_index(cs, i + key.len() + 2, seq![':', ' '], 0);
    lemma_at_index(cs, i + key.len() + 2, seq![':', ' '], 1);
}

/// A written boolean literal parses back; the wrong literal never matches.
pub proof fn lemma_parse_bool_at(cs: Seq<char>, i: int, b: bool)
    requires
        at(cs, i, bool_lit(b)),
    ensures
        parse_bool(cs, i) == Some((b, i + bool_lit(b).len())),
        match_lit(cs, i, null_lit()) is None,
{
    lemma_at_index(cs, i, bool_lit(b), 0);
    if b {
        assert(cs.subrange(i, i + 4) == bool_lit(true));
        assert(match_lit(cs, i, bool_lit(true)) == Some(i + 4));
    } else {
        assert(cs.subrange(i, i + 5) == bool_lit(false));
        if i + 4 <= cs.len() && cs.subrange(i, i + 4) == bool_lit(true) {
            assert(cs.subrange(i, i + 4)[0] == 't');
            assert(cs[i] == 'f');
            assert(false);
        }
        assert(match_lit(cs, i, bool_lit(true)) is None);
        assert(match_lit(cs, i, bool_lit(false)) == Some(i + 5));
    }
    if i + 4 <= cs.len() && cs.subrange(i, i + 4) == null_lit() {
        assert(cs.subrange(i, i + 4)[0] == 'n');
        assert(false);
    }
}

/// A written `null` parses as the unset marker.
pub proof fn lemma_parse_null_at(cs: Seq<char>, i: int)
    requires
        at(cs, i, null_lit()),
    ensures
        match_lit(cs, i, null_lit()) == Some(i + 4),
{
    assert(cs.subrange(i, i + 4) == null_lit());
}

/// A written icon position record parses back to its two coordinates.
pub proof fn lemma_parse_icon_at(cs: Seq<char>, i: int, x: int, y: int)
    requires
        at(cs, i, icon_rec(x, y)),
        -0x8000_0000_0000_0000 <= x <= 0x7fff_ffff_ffff_ffff,
        -0x8000_0000_0000_0000 <= y <= 0x7fff_ffff_ffff_ffff,
    ensures
        parse_icon(cs, i) == Some(((x, y), i + icon_rec(x, y).len())),
{
    let kx = kv("position_x"@, dec_i64(x));
    let ky = kv("position_y"@, dec_i64(y));
    proof_keys_unescaped();
    assert(icon_rec(x, y) =~= seq!['{'] + (kx + (seq![','] + (ky + seq!['}']))));
    lemma_at_split(cs, i, seq!['{'], kx + (seq![','] + (ky + seq!['}'])));
    lemma_at_index(cs, i, seq!['{'], 0);
    let p1 = i + 1;
    lemma_at_split(cs, p1, kx, seq![','] + (ky + seq!['}']));
    lemma_parse_kv(cs, p1, "position_x"@, dec_i64(x));
    let px = p1 + "position_x"@.len() + 4;
    let p2 = p1 + kx.len();
    lemma_at_split(cs, p2, seq![','], ky + seq!['}']);
    lemma_at_index(cs, p2, seq![','], 0);
    assert(cs[p2] == ',');
    let p3 = p2 + 1;
    lemma_at_split(cs, p3, ky, seq!['}']);
    lemma_parse_kv(cs, p3, "position_y"@, dec_i64(y));
    let py = p3 + "position_y"@.len() + 4;
    let p4 = p3 + ky.len();
    lemma_at_index(cs, p4, seq!['}'], 0);
    assert(cs[p4] == '}');
    // The scan inside the record.
    lemma_skip_ws_stop(cs, p1);
    assert(cs[p1] == '"') by {
        lemma_at_index(cs, p1, kx, 0);
    }
    lemma_skip_ws_stop(cs, px - 2);
    lemma_dec_digits(if x < 0 {
        -x
    } else {
        x
    });
    assert(!is_ws(cs[px])) by {
        lemma_at_index(cs, px, dec_i64(x), 0);
        if x < 0 {
            assert(dec_i64(x)[0] == '-');
        } else {
            assert(is_digit(dec_i64(x)[0]));
        }
    }
    lemma_skip_ws_one(cs, px - 1);
    lemma_parse_int_at(cs, px, x);
    lemma_skip_ws_stop(cs, p2);
    lemma_skip_ws_stop(cs, p3);
    assert(cs[p3] == '"') by {
        lemma_at_index(cs, p3, ky, 0);
    }
    lemma_skip_ws_stop(cs, py - 2);
    lemma_dec_digits(if y < 0 {
        -y
    } else {
        y
    });
    assert(!is_ws(cs[py])) by {
        lemma_at_index(cs, py, dec_i64(y), 0);
        if y < 0 {
            assert(dec_i64(y)[0] == '-');
        } else {
            assert(is_digit(dec_i64(y)[0]));
        }
    }
    lemma_skip_ws_one(cs, py - 1);
    lemma_parse_int_at(cs, py, y);
    lemma_skip_ws_stop(cs, p4);
}

/// Two adjacent pinned chunks pin their concatenation.
pub proof fn lemma_at_join(cs: Seq<char>, i: int, a: Seq<char>, b: Seq<char>)
    requires
        at(cs, i, a),
        at(cs, i + a.len(), b),
    ensures
        at(cs, i, a + b),
{
    assert(cs.subrange(i, i + (a + b).len()) =~= a + b) by {
        assert forall|k: int| 0 <= k < (a + b).len() implies cs.subrange(i, i + (a + b).len())[k]
            == (a + b)[k] by {
            if k < a.len() {
                assert(cs.subrange(i, i + a.len())[k] == a[k]);
            } else {
                assert(cs.subrange(i + a.len(), i + a.len() + b.len())[k - a.len()] == b[k
                    - a.len()]);
            }
        }
    }
}

/// A nonempty icon map's text starts with the head entry, a comma, and the
/// rest, when more than one entry follows.
pub proof fn lemma_icons_body_front(es: Seq<IconEntryV>)
    requires
        es.len() >= 2,
    ensures
        icons_body(es) == entry_json(es[0]) + (seq![','] + icons_body(es.drop_first())),
    decreases es.len(),
{
    if es.len() == 2 {
        assert(es.drop_last() =~= seq![es[0]]);
        assert(es.drop_first() =~= seq![es[1]]);
        assert(icons_body(seq![es[0]]) == entry_json(es[0]));
        assert(icons_body(seq![es[1]]) == entry_json(es[1]));
        assert(icons_body(es) == entry_json(es[0]) + seq![','] + entry_json(es[1]));
        assert(entry_json(es[0]) + seq![','] + entry_json(es[1]) =~= entry_json(es[0]) + (
        seq![','] + entry_json(es[1])));
    } else {
        let head = es[0];
        let tail = es.drop_first();
        lemma_icons_body_front(es.drop_last());
        assert(es.drop_last()[0] == head);
        assert(es.drop_last().drop_first() =~= tail.drop_last());
        assert(icons_body(es) == icons_body(es.drop_last()) + seq![','] + entry_json(es.last()));
        assert(icons_body(es.drop_last()) == entry_json(head) + (seq![','] + icons_body(
            tail.drop_last(),
        )));
        assert(tail.len() >= 2 ==> icons_body(tail) == icons_body(tail.drop_last()) + seq![',']
            + entry_json(tail.last()));
        assert(tail.last() == es.last());
        assert((entry_json(head) + (seq![','] + icons_body(tail.drop_last()))) + seq![',']
            + entry_json(es.last()) =~= entry_json(head) + (seq![','] + (icons_body(
            tail.drop_last(),
        ) + seq![','] + entry_json(tail.last()))));
    }
}

/// A nonempty icon map's text opens with a quote.
pub proof fn lemma_icons_body_head(es: Seq<IconEntryV>)
    requires
        es.len() >= 1,
    ensures
        icons_body(es).len() >= 1,
        icons_body(es)[0] == '"',
{
    if es.len() == 1 {
        assert(entry_json(es[0])[0] == '"');
    } else {
        lemma_icons_body_front(es);
        assert(entry_json(es[0])[0] == '"');
        assert(icons_body(es)[0] == entry_json(es[0])[0]);
    }
}

/// The icon map's text is at least as long as its entry count.
pub proof fn lemma_icons_body_len(es: Seq<IconEntryV>)
    ensures
        icons_body(es).len() >= es.len(),
    decreases es.len(),
{
    if es.len() == 1 {
        assert(entry_json(es[0]).len() >= 1);
    } else if es.len() > 1 {
        lemma_icons_body_len(es.drop_last());
        assert(entry_json(es.last()).len() >= 1);
    }
}

/// The entry parser reads a written icon map back entry for entry, in
/// order, onto whatever was already collected.
pub proof fn lemma_parse_entries_at(
    cs: Seq<char>,
    i: int,
    es: Seq<IconEntryV>,
    acc: Seq<IconEntryV>,
    fuel: nat,
)
    requires
        es.len() >= 1,
        at(cs, i, icons_body(es)),
        i + icons_body(es).len() < cs.len(),
        cs[i + icons_body(es).len()] == '}',
        fuel >= es.len(),
        forall|k: int|
            0 <= k < es.len() ==> -0x8000_0000_0000_0000 <= (#[trigger] es[k]).x
                <= 0x7fff_ffff_ffff_ffff && -0x8000_0000_0000_0000 <= es[k].y
                <= 0x7fff_ffff_ffff_ffff,
    ensures
        parse_entries(cs, i, acc, fuel) == Some((acc + es, i + icons_body(es).len() + 1)),
    decreases es.len(),
{
    let e = es[0];
    let ej = entry_json(e);
    let name_chunk = json_str(e.name);
    let rec = icon_rec(e.x, e.y);
    if es.len() == 1 {
        assert(icons_body(es) == ej);
        assert(ej =~= name_chunk + (seq![':'] + rec));
        lemma_at_split(cs, i, name_chunk, seq![':'] + rec);
        lemma_parse_string_at(cs, i, e.name);
        let j = i + name_chunk.len();
        lemma_at_split(cs, j, seq![':'], rec);
        lemma_at_index(cs, j, seq![':'], 0);
        lemma_skip_ws_stop(cs, j);
        assert(cs[j + 1] == '{') by {
            lemma_at_index(cs, j + 1, rec, 0);
        }
        lemma_skip_ws_stop(cs, j + 1);
        lemma_parse_icon_at(cs, j + 1, e.x, e.y);
        let k = j + 1 + rec.len();
        assert(k == i + icons_body(es).len());
        lemma_skip_ws_stop(cs, k);
        assert(acc.push(e) =~= acc + es);
    } else {
        lemma_icons_body_front(es);
        let tail_body = icons_body(es.drop_first());
        lemma_at_split(cs, i, ej, seq![','] + tail_body);
        assert(ej =~= name_chunk + (seq![':'] + rec));
        lemma_at_split(cs, i, name_chunk, seq![':'] + rec);
        lemma_parse_string_at(cs, i, e.name);
        let j = i + name_chunk.len();
        lemma_at_split(cs, j, seq![':'], rec);
        lemma_at_index(cs, j, seq![':'], 0);
        lemma_skip_ws_stop(cs, j);
        assert(cs[j + 1] == '{') by {
            lemma_at_index(cs, j + 1, rec, 0);
        }
        lemma_skip_ws_stop(cs, j + 1);
        lemma_parse_icon_at(cs, j + 1, e.x, e.y);
        let k = j + 1 + rec.len();
        assert(k == i + ej.len());
        let q = i + ej.len();
        lemma_at_split(cs, q, seq![','], tail_body);
        lemma_at_index(cs, q, seq![','], 0);
        lemma_skip_ws_stop(cs, q);
        lemma_icons_body_head(es.drop_first());
        assert(cs[q + 1] == '"') by {
            lemma_at_index(cs, q + 1, tail_body, 0);
        }
        lemma_skip_ws_stop(cs, q + 1);
        assert(forall|k2: int|
            0 <= k2 < es.drop_first().len() ==> #[trigger] es.drop_first()[k2] == es[k2 + 1]);
        lemma_parse_entries_at(cs, q + 1, es.drop_first(), acc.push(e), (fuel - 1) as nat);
        assert(acc.push(e) + es.drop_first() =~= acc + es);
        assert(q + 1 + tail_body.len() == i + icons_body(es).len());
    }
}

/// The icons parser reads a written icon map object back exactly.
pub proof fn lemma_parse_icons_at(cs: Seq<char>, i: int, es: Seq<IconEntryV>, fuel: nat)
    requires
        at(cs, i, icons_json(es)),
        i + icons_json(es).len() < cs.len() || es.len() == 0,
        fuel >= es.len(),
        forall|k: int|
            0 <= k < es.len() ==> -0x8000_0000_0000_0000 <= (#[trigger] es[k]).x
                <= 0x7fff_ffff_ffff_ffff && -0x8000_0000_0000_0000 <= es[k].y
                <= 0x7fff_ffff_ffff_ffff,
    ensures
        parse_icons(cs, i, fuel) == Some((es, i + icons_json(es).len())),
{
    assert(icons_json(es) =~= seq!['{'] + (icons_body(es) + seq!['}']));
    lemma_at_split(cs, i, seq!['{'], icons_body(es) + seq!['}']);
    lemma_at_index(cs, i, seq!['{'], 0);
    lemma_at_split(cs, i + 1, icons_body(es), seq!['}']);
    lemma_at_index(cs, i + 1 + icons_body(es).len(), seq!['}'], 0);
    if es.len() == 0 {
        assert(icons_body(es).len() == 0);
        assert(cs[i + 1] == '}');
        lemma_skip_ws_stop(cs, i + 1);
        assert(Seq::<IconEntryV>::empty() =~= es);
    } else {
        lemma_icons_body_head(es);
        assert(cs[i + 1] == '"') by {
            lemma_at_index(cs, i + 1, icons_body(es), 0);
        }
        lemma_skip_ws_stop(cs, i + 1);
        lemma_parse_entries_at(cs, i + 1, es, Seq::<IconEntryV>::empty(), fuel);
        assert(Seq::<IconEntryV>::empty() + es =~= es);
    }
}

/// One scalar field line steps the field parser to the next field with the
/// field's slot overwritten.
pub proof fn lemma_field_step(
    cs: Seq<char>,
    i: int,
    key: Seq<char>,
    val: Seq<char>,
    m: LayoutV,
    m2: LayoutV,
    fuel: nat,
)
    requires
        fuel >= 1,
        at(cs, i, kv(key, val) + seq![',', '\n']),
        forall|k: int| 0 <= k < key.len() ==> !needs_escape(#[trigger] key[k]),
        val.len() >= 1,
        !is_ws(val[0]),
        parse_field_value(cs, i + key.len() + 4, m, key, fuel) == Some(
            (m2, i + key.len() + 4 + val.len()),
        ),
        i + kv(key, val).len() + 2 < cs.len(),
        !is_ws(cs[i + kv(key, val).len() + 2]),
    ensures
        parse_fields(cs, i, m, fuel) == parse_fields(
            cs,
            i + kv(key, val).len() + 2,
            m2,
            (fuel - 1) as nat,
        ),
{
    lemma_at_split(cs, i, kv(key, val), seq![',', '\n']);
    lemma_parse_kv(cs, i, key, val);
    let jc = i + key.len() + 2;
    lemma_skip_ws_stop(cs, jc);
    let vp = i + key.len() + 4;
    assert(cs[vp] == val[0]) by {
        lemma_at_index(cs, vp, val, 0);
    }
    lemma_skip_ws_one(cs, jc + 1);
    let vend = vp + val.len();
    assert(vend == i + kv(key, val).len());
    lemma_at_index(cs, vend, seq![',', '\n'], 0);
    lemma_at_index(cs, vend, seq![',', '\n'], 1);
    lemma_skip_ws_stop(cs, vend);
    lemma_skip_ws_one(cs, vend + 1);
}

/// The last field line, followed by the closing braces, finishes the field
/// parser with the field's slot overwritten.
pub proof fn lemma_field_last(
    cs: Seq<char>,
    i: int,
    key: Seq<char>,
    val: Seq<char>,
    m: LayoutV,
    m2: LayoutV,
    fuel: nat,
)
    requires
        fuel >= 1,
        at(cs, i, kv(key, val) + seq!['\n', '}']),
        forall|k: int| 0 <= k < key.len() ==> !needs_escape(#[trigger] key[k]),
        val.len() >= 1,
        !is_ws(val[0]),
        parse_field_value(cs, i + key.len() + 4, m, key, fuel) == Some(
            (m2, i + key.len() + 4 + val.len()),
        ),
    ensures
        parse_fields(cs, i, m, fuel) == Some((m2, i + kv(key, val).len() + 2)),
{
    lemma_at_split(cs, i, kv(key, val), seq!['\n', '}']);
    lemma_parse_kv(cs, i, key, val);
    let jc = i + key.len() + 2;
    lemma_skip_ws_stop(cs, jc);
    let vp = i + key.len() + 4;
    assert(cs[vp] == val[0]) by {
        lemma_at_index(cs, vp, val, 0);
    }
    lemma_skip_ws_one(cs, jc + 1);
    let vend = vp + val.len();
    assert(vend == i + kv(key, val).len());
    lemma_at_index(cs, vend, seq!['\n', '}'], 0);
    lemma_at_index(cs, vend, seq!['\n', '}'], 1);
    lemma_skip_ws_one(cs, vend);
}

/// The keys of the format contain no character the encoder escapes.
pub proof fn proof_keys_unescaped()
    ensures
        forall|k: int|
            0 <= k < "position_x"@.len() ==> !needs_escape(#[trigger] "position_x"@[k]),
        forall|k: int|
            0 <= k < "position_y"@.len() ==> !needs_escape(#[trigger] "position_y"@[k]),
        forall|k: int|
            0 <= k < "background_color"@.len() ==> !needs_escape(
                #[trigger] "background_color"@[k],
            ),
        forall|k: int| 0 <= k < "font_color"@.len() ==> !needs_escape(#[trigger] "font_color"@[k]),
        forall|k: int| 0 <= k < "font_size"@.len() ==> !needs_escape(#[trigger] "font_size"@[k]),
        forall|k: int| 0 <= k < "font_bold"@.len() ==> !needs_escape(#[trigger] "font_bold"@[k]),
        forall|k: int| 0 <= k < "cell_size"@.len() ==> !needs_escape(#[trigger] "cell_size"@[k]),
        forall|k: int| 0 <= k < "drilldown"@.len() ==> !needs_escape(#[trigger] "drilldown"@[k]),
        forall|k: int| 0 <= k < "zoom"@.len() ==> !needs_escape(#[trigger] "zoom"@[k]),
        forall|k: int| 0 <= k < "zoom_x"@.len() ==> !needs_escape(#[trigger] "zoom_x"@[k]),
        forall|k: int| 0 <= k < "zoom_y"@.len() ==> !needs_escape(#[trigger] "zoom_y"@[k]),
        forall|k: int| 0 <= k < "icons"@.len() ==> !needs_escape(#[trigger] "icons"@[k]),
{
    reveal_strlit("position_x");
    reveal_strlit("position_y");
    reveal_strlit("background_color");
    reveal_strlit("font_color");
    reveal_strlit("font_size");
    reveal_strlit("font_bold");
    reveal_strlit("cell_size");
    reveal_strlit("drilldown");
    reveal_strlit("zoom");
    reveal_strlit("zoom_x");
    reveal_strlit("zoom_y");
    reveal_strlit("icons");
}

/// The keys of equal written length are told apart by a character.
pub proof fn proof_keys_distinct()
    ensures
        "font_size"@ != "font_bold"@,
        "font_size"@ != "cell_size"@,
        "font_size"@ != "drilldown"@,
        "font_bold"@ != "cell_size"@,
        "font_bold"@ != "drilldown"@,
        "cell_size"@ != "drilldown"@,
        "zoom_x"@ != "zoom_y"@,
{
    reveal_strlit("font_size");
    reveal_strlit("font_bold");
    reveal_strlit("cell_size");
    reveal_strlit("drilldown");
    reveal_strlit("zoom_x");
    reveal_strlit("zoom_y");
    assert("font_size"@ != "font_bold"@) by {
        assert("font_size"@[5] == 's' && "font_bold"@[5] == 'b');
    }
    assert("font_size"@ != "cell_size"@) by {
        assert("font_size"@[0] == 'f' && "cell_size"@[0] == 'c');
    }
    assert("font_size"@ != "drilldown"@) by {
        assert("font_size"@[0] == 'f' && "drilldown"@[0] == 'd');
    }
    assert("font_bold"@ != "cell_size"@) by {
        assert("font_bold"@[0] == 'f' && "cell_size"@[0] == 'c');
    }
    assert("font_bold"@ != "drilldown"@) by {
        assert("font_bold"@[0] == 'f' && "drilldown"@[0] == 'd');
    }
    assert("cell_size"@ != "drilldown"@) by {
        assert("cell_size"@[0] == 'c' && "drilldown"@[0] == 'd');
    }
    assert("zoom_x"@ != "zoom_y"@) by {
        assert("zoom_x"@[5] == 'x' && "zoom_y"@[5] == 'y');
    }
}

/// One field-line chunk: a `"key": value` pair with its separator.
pub open spec fn bchunk(key: Seq<char>, val: Seq<char>) -> Seq<char> {
    kv(key, val) + seq![',', '\n']
}

/// The scalar field lines regrouped into one chunk per field.
#[verifier::rlimit(100)]
pub proof fn lemma_fields_json_chunks(m: LayoutV)
    ensures
        fields_json(m) == seq!['{', '\n'] + (bchunk(
            "background_color"@,
            json_str(m.background_color),
        ) + (bchunk("font_color"@, json_str(m.font_color)) + (bchunk(
            "font_size"@,
            json_str(m.font_size),
        ) + (bchunk("font_bold"@, opt_bool_lit(m.font_bold)) + (bchunk(
            "cell_size"@,
            dec_i64(m.cell_size),
        ) + (bchunk("drilldown"@, bool_lit(m.drilldown)) + (bchunk("zoom"@, bool_lit(m.zoom)) + (
        bchunk("zoom_x"@, dec_i64(m.zoom_x)) + bchunk("zoom_y"@, dec_i64(m.zoom_y)))))))))),
{
    assert(fields_json(m) =~= seq!['{', '\n'] + (bchunk(
        "background_color"@,
        json_str(m.background_color),
    ) + (bchunk("font_color"@, json_str(m.font_color)) + (bchunk(
        "font_size"@,
        json_str(m.font_size),
    ) + (bchunk("font_bold"@, opt_bool_lit(m.font_bold)) + (bchunk(
        "cell_size"@,
        dec_i64(m.cell_size),
    ) + (bchunk("drilldown"@, bool_lit(m.drilldown)) + (bchunk("zoom"@, bool_lit(m.zoom)) + (
    bchunk("zoom_x"@, dec_i64(m.zoom_x)) + bchunk("zoom_y"@, dec_i64(m.zoom_y)))))))))));
}

/// The layout with the string field under `key` replaced.
pub open spec fn set_str_field(m: LayoutV, key: Seq<char>, v: Seq<char>) -> LayoutV {
    if key == "background_color"@ {
        LayoutV { background_color: v, ..m }
    } else if key == "font_color"@ {
        LayoutV { font_color: v, ..m }
    } else {
        LayoutV { font_size: v, ..m }
    }
}

/// The layout with the integer field under `key` replaced.
pub open spec fn set_int_field(m: LayoutV, key: Seq<char>, v: int) -> LayoutV {
    if key == "cell_size"@ {
        LayoutV { cell_size: v, ..m }
    } else if key == "zoom_x"@ {
        LayoutV { zoom_x: v, ..m }
    } else {
        LayoutV { zoom_y: v, ..m }
    }
}

/// The layout with the boolean field under `key` replaced.
pub open spec fn set_bool_field(m: LayoutV, key: Seq<char>, b: bool) -> LayoutV {
    if key == "drilldown"@ {
        LayoutV { drilldown: b, ..m }
    } else {
        LayoutV { zoom: b, ..m }
    }
}

/// A string field line steps the field parser, writing its slot.
pub proof fn lemma_step_string_field(
    cs: Seq<char>,
    i: int,
    key: Seq<char>,
    v: Seq<char>,
    m: LayoutV,
    fuel: nat,
)
    requires
        fuel >= 1,
        key == "background_color"@ || key == "font_color"@ || key == "font_size"@,
        at(cs, i, bchunk(key, json_str(v))),
        i + bchunk(key, json_str(v)).len() < cs.len(),
        !is_ws(cs[i + bchunk(key, json_str(v)).len()]),
    ensures
        parse_fields(cs, i, m, fuel) == parse_fields(
            cs,
            i + bchunk(key, json_str(v)).len(),
            set_str_field(m, key, v),
            (fuel - 1) as nat,
        ),
{
    reveal_strlit("background_color");
    reveal_strlit("font_color");
    reveal_strlit("font_size");
    proof_keys_unescaped();
    proof_keys_distinct();
    lemma_at_split(cs, i, kv(key, json_str(v)), seq![',', '\n']);
    lemma_parse_kv(cs, i, key, json_str(v));
    let vp = i + key.len() + 4;
    lemma_parse_string_at(cs, vp, v);
    assert(parse_field_value(cs, vp, m, key, fuel) == Some(
        (set_str_field(m, key, v), vp + json_str(v).len()),
    ));
    assert(json_str(v)[0] == '"');
    lemma_field_step(cs, i, key, json_str(v), m, set_str_field(m, key, v), fuel);
}

/// An integer field line steps the field parser, writing its slot.
pub proof fn lemma_step_int_field(
    cs: Seq<char>,
    i: int,
    key: Seq<char>,
    v: int,
    m: LayoutV,
    fuel: nat,
)
    requires
        fuel >= 1,
        key == "cell_size"@ || key == "zoom_x"@ || key == "zoom_y"@,
        -0x8000_0000_0000_0000 <= v <= 0x7fff_ffff_ffff_ffff,
        at(cs, i, bchunk(key, dec_i64(v))),
        i + bchunk(key, dec_i64(v)).len() < cs.len(),
        !is_ws(cs[i + bchunk(key, dec_i64(v)).len()]),
    ensures
        parse_fields(cs, i, m, fuel) == parse_fields(
            cs,
            i + bchunk(key, dec_i64(v)).len(),
            set_int_field(m, key, v),
            (fuel - 1) as nat,
        ),
{
    reveal_strlit("background_color");
    reveal_strlit("font_color");
    reveal_strlit("font_size");
    reveal_strlit("font_bold");
    reveal_strlit("cell_size");
    reveal_strlit("drilldown");
    reveal_strlit("zoom");
    reveal_strlit("zoom_x");
    reveal_strlit("zoom_y");
    proof_keys_unescaped();
    proof_keys_distinct();
    lemma_at_split(cs, i, kv(key, dec_i64(v)), seq![',', '\n']);
    lemma_parse_kv(cs, i, key, dec_i64(v));
    let vp = i + key.len() + 4;
    lemma_dec_digits(if v < 0 {
        -v
    } else {
        v
    });
    assert(!is_ws(dec_i64(v)[0]) && dec_i64(v).len() >= 1) by {
        if v < 0 {
            assert(dec_i64(v)[0] == '-');
        } else {
            assert(is_digit(dec_i64(v)[0]));
        }
    }
    assert(cs[vp + dec_i64(v).len()] == ',') by {
        lemma_at_index(cs, i + kv(key, dec_i64(v)).len(), seq![',', '\n'], 0);
    }
    lemma_parse_int_at(cs, vp, v);
    assert(parse_field_value(cs, vp, m, key, fuel) == Some(
        (set_int_field(m, key, v), vp + dec_i64(v).len()),
    ));
    lemma_field_step(cs, i, key, dec_i64(v), m, set_int_field(m, key, v), fuel);
}

/// A boolean field line steps the field parser, writing its slot.
pub proof fn lemma_step_bool_field(
    cs: Seq<char>,
    i: int,
    key: Seq<char>,
    b: bool,
    m: LayoutV,
    fuel: nat,
)
    requires
        fuel >= 1,
        key == "drilldown"@ || key == "zoom"@,
        at(cs, i, bchunk(key, bool_lit(b))),
        i + bchunk(key, bool_lit(b)).len() < cs.len(),
        !is_ws(cs[i + bchunk(key, bool_lit(b)).len()]),
    ensures
        parse_fields(cs, i, m, fuel) == parse_fields(
            cs,
            i + bchunk(key, bool_lit(b)).len(),
            set_bool_field(m, key, b),
            (fuel - 1) as nat,
        ),
{
    reveal_strlit("background_color");
    reveal_strlit("font_color");
    reveal_strlit("font_size");
    reveal_strlit("font_bold");
    reveal_strlit("cell_size");
    reveal_strlit("drilldown");
    reveal_strlit("zoom");
    proof_keys_unescaped();
    proof_keys_distinct();
    lemma_at_split(cs, i, kv(key, bool_lit(b)), seq![',', '\n']);
    lemma_parse_kv(cs, i, key, bool_lit(b));
    let vp = i + key.len() + 4;
    lemma_parse_bool_at(cs, vp, b);
    assert(!is_ws(bool_lit(b)[0]) && bool_lit(b).len() >= 1);
    assert(parse_field_value(cs, vp, m, key, fuel) == Some(
        (set_bool_field(m, key, b), vp + bool_lit(b).len()),
    ));
    lemma_field_step(cs, i, key, bool_lit(b), m, set_bool_field(m, key, b), fuel);
}

/// The optional-boolean field line steps the field parser, writing the
/// bold-font slot.
pub proof fn lemma_step_optbool_field(cs: Seq<char>, i: int, b: Option<bool>, m: LayoutV, fuel: nat)
    requires
        fuel >= 1,
        at(cs, i, bchunk("font_bold"@, opt_bool_lit(b))),
        i + bchunk("font_bold"@, opt_bool_lit(b)).len() < cs.len(),
        !is_ws(cs[i + bchunk("font_bold"@, opt_bool_lit(b)).len()]),
    ensures
        parse_fields(cs, i, m, fuel) == parse_fields(
            cs,
            i + bchunk("font_bold"@, opt_bool_lit(b)).len(),
            LayoutV { font_bold: b, ..m },
            (fuel - 1) as nat,
        ),
{
    reveal_strlit("background_color");
    reveal_strlit("font_color");
    reveal_strlit("font_size");
    reveal_strlit("font_bold");
    proof_keys_unescaped();
    proof_keys_distinct();
    let key = "font_bold"@;
    lemma_at_split(cs, i, kv(key, opt_bool_lit(b)), seq![',', '\n']);
    lemma_parse_kv(cs, i, key, opt_bool_lit(b));
    let vp = i + key.len() + 4;
    match b {
        None => {
            lemma_parse_null_at(cs, vp);
            assert(!is_ws(opt_bool_lit(b)[0]) && opt_bool_lit(b).len() >= 1);
        },
        Some(bv) => {
            lemma_parse_bool_at(cs, vp, bv);
            assert(!is_ws(opt_bool_lit(b)[0]) && opt_bool_lit(b).len() >= 1);
        },
    }
    assert(parse_field_value(cs, vp, m, key, fuel) == Some(
        (LayoutV { font_bold: b, ..m }, vp + opt_bool_lit(b).len()),
    ));
    lemma_field_step(cs, i, key, opt_bool_lit(b), m, LayoutV { font_bold: b, ..m }, fuel);
}

/// The closing icons field line finishes the field parser, writing the
/// icon map.
pub proof fn lemma_last_icons_field(
    cs: Seq<char>,
    i: int,
    es: Seq<IconEntryV>,
    m: LayoutV,
    fuel: nat,
)
    requires
        fuel >= 1 + es.len(),
        at(cs, i, kv("icons"@, icons_json(es)) + seq!['\n', '}']),
        i + kv("icons"@, icons_json(es)).len() + 2 == cs.len(),
        forall|k: int|
            0 <= k < es.len() ==> -0x8000_0000_0000_0000 <= (#[trigger] es[k]).x
                <= 0x7fff_ffff_ffff_ffff && -0x8000_0000_0000_0000 <= es[k].y
                <= 0x7fff_ffff_ffff_ffff,
    ensures
        parse_fields(cs, i, m, fuel) == Some((LayoutV { icons: es, ..m }, cs.len() as int)),
{
    reveal_strlit("background_color");
    reveal_strlit("font_color");
    reveal_strlit("font_size");
    reveal_strlit("font_bold");
    reveal_strlit("cell_size");
    reveal_strlit("drilldown");
    reveal_strlit("zoom");
    reveal_strlit("zoom_x");
    reveal_strlit("zoom_y");
    reveal_strlit("icons");
    proof_keys_unescaped();
    proof_keys_distinct();
    let key = "icons"@;
    let val = icons_json(es);
    lemma_at_split(cs, i, kv(key, val), seq!['\n', '}']);
    lemma_parse_kv(cs, i, key, val);
    let vp = i + key.len() + 4;
    lemma_parse_icons_at(cs, vp, es, fuel);
    assert(val[0] == '{' && val.len() >= 1);
    assert(parse_field_value(cs, vp, m, key, fuel) == Some(
        (LayoutV { icons: es, ..m }, vp + val.len()),
    ));
    lemma_field_last(cs, i, key, val, m, LayoutV { icons: es, ..m }, fuel);
}

/// The first field-line chunk: the background color.
pub open spec fn bc1(m: LayoutV) -> Seq<char> {
    bchunk("background_color"@, json_str(m.background_color))
}

/// The font-color field-line chunk.
pub open spec fn bc2(m: LayoutV) -> Seq<char> {
    bchunk("font_color"@, json_str(m.font_color))
}

/// The font-size field-line chunk.
pub open spec fn bc3(m: LayoutV) -> Seq<char> {
    bchunk("font_size"@, json_str(m.font_size))
}

/// The bold-font field-line chunk.
pub open spec fn bc4(m: LayoutV) -> Seq<char> {
    bchunk("font_bold"@, opt_bool_lit(m.font_bold))
}

/// The cell-size field-line chunk.
pub open spec fn bc5(m: LayoutV) -> Seq<char> {
    bchunk("cell_size"@, dec_i64(m.cell_size))
}

/// The drilldown field-line chunk.
pub open spec fn bc6(m: LayoutV) -> Seq<char> {
    bchunk("drilldown"@, bool_lit(m.drilldown))
}

/// The zoom-flag field-line chunk.
pub open spec fn bc7(m: LayoutV) -> Seq<char> {
    bchunk("zoom"@, bool_lit(m.zoom))
}

/// The zoom-x field-line chunk.
pub open spec fn bc8(m: LayoutV) -> Seq<char> {
    bchunk("zoom_x"@, dec_i64(m.zoom_x))
}

/// The zoom-y field-line chunk.
pub open spec fn bc9(m: LayoutV) -> Seq<char> {
    bchunk("zoom_y"@, dec_i64(m.zoom_y))
}

/// The closing icons chunk with the final braces.
pub open spec fn kic(m: LayoutV) -> Seq<char> {
    kv("icons"@, icons_json(m.icons)) + seq!['\n', '}']
}

/// The layout after the first five written fields overwrote the defaults.
pub open spec fn first_five(m: LayoutV) -> LayoutV {
    LayoutV {
        background_color: m.background_color,
        font_color: m.font_color,
        font_size: m.font_size,
        font_bold: m.font_bold,
        cell_size: m.cell_size,
        ..default_layout_v()
    }
}

/// The first half of the field walk: the five cosmetic fields.
#[verifier::rlimit(100)]
pub proof fn lemma_rt_fields_front(cs: Seq<char>, p1: int, mv: LayoutV, fuel0: nat)
    requires
        fuel0 >= 5,
        -0x8000_0000_0000_0000 <= mv.cell_size <= 0x7fff_ffff_ffff_ffff,
        at(cs, p1, bc1(mv)),
        at(cs, p1 + bc1(mv).len(), bc2(mv)),
        at(cs, p1 + bc1(mv).len() + bc2(mv).len(), bc3(mv)),
        at(cs, p1 + bc1(mv).len() + bc2(mv).len() + bc3(mv).len(), bc4(mv)),
        at(cs, p1 + bc1(mv).len() + bc2(mv).len() + bc3(mv).len() + bc4(mv).len(), bc5(mv)),
        p1 + bc1(mv).len() + bc2(mv).len() + bc3(mv).len() + bc4(mv).len() + bc5(mv).len()
            < cs.len(),
        !is_ws(
            cs[p1 + bc1(mv).len() + bc2(mv).len() + bc3(mv).len() + bc4(mv).len() + bc5(
                mv,
            ).len()],
        ),
    ensures
        parse_fields(cs, p1, default_layout_v(), fuel0) == parse_fields(
            cs,
            p1 + bc1(mv).len() + bc2(mv).len() + bc3(mv).len() + bc4(mv).len() + bc5(mv).len(),
            first_five(mv),
            (fuel0 - 5) as nat,
        ),
{
    let p2 = p1 + bc1(mv).len();
    let p3 = p2 + bc2(mv).len();
    let p4 = p3 + bc3(mv).len();
    let p5 = p4 + bc4(mv).len();
    assert(cs[p2] == '"') by {
        lemma_at_index(cs, p2, bc2(mv), 0);
    }
    assert(cs[p3] == '"') by {
        lemma_at_index(cs, p3, bc3(mv), 0);
    }
    assert(cs[p4] == '"') by {
        lemma_at_index(cs, p4, bc4(mv), 0);
    }
    assert(cs[p5] == '"') by {
        lemma_at_index(cs, p5, bc5(mv), 0);
    }
    let m0 = default_layout_v();
    lemma_step_string_field(cs, p1, "background_color"@, mv.background_color, m0, fuel0);
    let m1 = set_str_field(m0, "background_color"@, mv.background_color);
    lemma_step_string_field(cs, p2, "font_color"@, mv.font_color, m1, (fuel0 - 1) as nat);
    let m2 = set_str_field(m1, "font_color"@, mv.font_color);
    lemma_step_string_field(cs, p3, "font_size"@, mv.font_size, m2, (fuel0 - 2) as nat);
    let m3 = set_str_field(m2, "font_size"@, mv.font_size);
    lemma_step_optbool_field(cs, p4, mv.font_bold, m3, (fuel0 - 3) as nat);
    let m4 = LayoutV { font_bold: mv.font_bold, ..m3 };
    lemma_step_int_field(cs, p5, "cell_size"@, mv.cell_size, m4, (fuel0 - 4) as nat);
    let m5 = set_int_field(m4, "cell_size"@, mv.cell_size);
    proof_keys_distinct();
    reveal_strlit("background_color");
    reveal_strlit("font_color");
    reveal_strlit("font_size");
    reveal_strlit("cell_size");
    assert(m5 =~= first_five(mv));
}

/// The navigation and zoom field lines, from any accumulated layout.
#[verifier::rlimit(100)]
pub proof fn lemma_rt_fields_mid(cs: Seq<char>, p6: int, mv: LayoutV, mstart: LayoutV, fuel: nat)
    requires
        fuel >= 4,
        -0x8000_0000_0000_0000 <= mv.zoom_x <= 0x7fff_ffff_ffff_ffff,
        -0x8000_0000_0000_0000 <= mv.zoom_y <= 0x7fff_ffff_ffff_ffff,
        at(cs, p6, bc6(mv)),
        at(cs, p6 + bc6(mv).len(), bc7(mv)),
        at(cs, p6 + bc6(mv).len() + bc7(mv).len(), bc8(mv)),
        at(cs, p6 + bc6(mv).len() + bc7(mv).len() + bc8(mv).len(), bc9(mv)),
        p6 + bc6(mv).len() + bc7(mv).len() + bc8(mv).len() + bc9(mv).len() < cs.len(),
        !is_ws(cs[p6 + bc6(mv).len() + bc7(mv).len() + bc8(mv).len() + bc9(mv).len()]),
    ensures
        parse_fields(cs, p6, mstart, fuel) == parse_fields(
            cs,
            p6 + bc6(mv).len() + bc7(mv).len() + bc8(mv).len() + bc9(mv).len(),
            LayoutV {
                drilldown: mv.drilldown,
                zoom: mv.zoom,
                zoom_x: mv.zoom_x,
                zoom_y: mv.zoom_y,
                ..mstart
            },
            (fuel - 4) as nat,
        ),
{
    let p7 = p6 + bc6(mv).len();
    let p8 = p7 + bc7(mv).len();
    let p9 = p8 + bc8(mv).len();
    assert(cs[p7] == '"') by {
        lemma_at_index(cs, p7, bc7(mv), 0);
    }
    assert(cs[p8] == '"') by {
        lemma_at_index(cs, p8, bc8(mv), 0);
    }
    assert(cs[p9] == '"') by {
        lemma_at_index(cs, p9, bc9(mv), 0);
    }
    lemma_step_bool_field(cs, p6, "drilldown"@, mv.drilldown, mstart, fuel);
    let m6 = set_bool_field(mstart, "drilldown"@, mv.drilldown);
    lemma_step_bool_field(cs, p7, "zoom"@, mv.zoom, m6, (fuel - 1) as nat);
    let m7 = set_bool_field(m6, "zoom"@, mv.zoom);
    lemma_step_int_field(cs, p8, "zoom_x"@, mv.zoom_x, m7, (fuel - 2) as nat);
    let m8 = set_int_field(m7, "zoom_x"@, mv.zoom_x);
    lemma_step_int_field(cs, p9, "zoom_y"@, mv.zoom_y, m8, (fuel - 3) as nat);
    let m9 = set_int_field(m8, "zoom_y"@, mv.zoom_y);
    proof_keys_distinct();
    reveal_strlit("cell_size");
    reveal_strlit("drilldown");
    reveal_strlit("zoom");
    reveal_strlit("zoom_x");
    reveal_strlit("zoom_y");
    assert(m9 =~= (LayoutV {
        drilldown: mv.drilldown,
        zoom: mv.zoom,
        zoom_x: mv.zoom_x,
        zoom_y: mv.zoom_y,
        ..mstart
    }));
}

/// The second half of the field walk: the navigation and zoom fields and
/// the closing icon map, from any accumulated layout.
#[verifier::rlimit(100)]
pub proof fn lemma_rt_fields_back(cs: Seq<char>, p6: int, mv: LayoutV, mstart: LayoutV, fuel: nat)
    requires
        fuel >= 5 + mv.icons.len(),
        -0x8000_0000_0000_0000 <= mv.zoom_x <= 0x7fff_ffff_ffff_ffff,
        -0x8000_0000_0000_0000 <= mv.zoom_y <= 0x7fff_ffff_ffff_ffff,
        forall|k: int|
            0 <= k < mv.icons.len() ==> -0x8000_0000_0000_0000 <= (#[trigger] mv.icons[k]).x
                <= 0x7fff_ffff_ffff_ffff && -0x8000_0000_0000_0000 <= mv.icons[k].y
                <= 0x7fff_ffff_ffff_ffff,
        at(cs, p6, bc6(mv)),
        at(cs, p6 + bc6(mv).len(), bc7(mv)),
        at(cs, p6 + bc6(mv).len() + bc7(mv).len(), bc8(mv)),
        at(cs, p6 + bc6(mv).len() + bc7(mv).len() + bc8(mv).len(), bc9(mv)),
        at(cs, p6 + bc6(mv).len() + bc7(mv).len() + bc8(mv).len() + bc9(mv).len(), kic(mv)),
        p6 + bc6(mv).len() + bc7(mv).len() + bc8(mv).len() + bc9(mv).len() + kic(mv).len()
            == cs.len(),
    ensures
        parse_fields(cs, p6, mstart, fuel) == Some(
            (
                LayoutV {
                    drilldown: mv.drilldown,
                    zoom: mv.zoom,
                    zoom_x: mv.zoom_x,
                    zoom_y: mv.zoom_y,
                    icons: mv.icons,
                    ..mstart
                },
                cs.len() as int,
            ),
        ),
{
    let p10 = p6 + bc6(mv).len() + bc7(mv).len() + bc8(mv).len() + bc9(mv).len();
    assert(cs[p10] == '"') by {
        lemma_at_index(cs, p10, kic(mv), 0);
    }
    lemma_rt_fields_mid(cs, p6, mv, mstart, fuel);
    let m9 = LayoutV {
        drilldown: mv.drilldown,
        zoom: mv.zoom,
        zoom_x: mv.zoom_x,
        zoom_y: mv.zoom_y,
        ..mstart
    };
    assert(kic(mv) =~= kv("icons"@, icons_json(mv.icons)) + seq!['\n', '}']);
    lemma_last_icons_field(cs, p10, mv.icons, m9, (fuel - 4) as nat);
    assert(LayoutV { icons: mv.icons, ..m9 } =~= (LayoutV {
        drilldown: mv.drilldown,
        zoom: mv.zoom,
        zoom_x: mv.zoom_x,
        zoom_y: mv.zoom_y,
        icons: mv.icons,
        ..mstart
    }));
}

/// The field walk: from the first key, the field parser reads all ten
/// written fields and ends at the text's end with the written layout.
pub proof fn lemma_rt_fields(cs: Seq<char>, p1: int, mv: LayoutV, fuel0: nat)
    requires
        fuel0 >= 10 + mv.icons.len(),
        at(cs, p1, bc1(mv)),
        at(cs, p1 + bc1(mv).len(), bc2(mv)),
        at(cs, p1 + bc1(mv).len() + bc2(mv).len(), bc3(mv)),
        at(cs, p1 + bc1(mv).len() + bc2(mv).len() + bc3(mv).len(), bc4(mv)),
        at(cs, p1 + bc1(mv).len() + bc2(mv).len() + bc3(mv).len() + bc4(mv).len(), bc5(mv)),
        at(
            cs,
            p1 + bc1(mv).len() + bc2(mv).len() + bc3(mv).len() + bc4(mv).len() + bc5(mv).len(),
            bc6(mv),
        ),
        at(
            cs,
            p1 + bc1(mv).len() + bc2(mv).len() + bc3(mv).len() + bc4(mv).len() + bc5(mv).len()
                + bc6(mv).len(),
            bc7(mv),
        ),
        at(
            cs,
            p1 + bc1(mv).len() + bc2(mv).len() + bc3(mv).len() + bc4(mv).len() + bc5(mv).len()
                + bc6(mv).len() + bc7(mv).len(),
            bc8(mv),
        ),
        at(
            cs,
            p1 + bc1(mv).len() + bc2(mv).len() + bc3(mv).len() + bc4(mv).len() + bc5(mv).len()
                + bc6(mv).len() + bc7(mv).len() + bc8(mv).len(),
            bc9(mv),
        ),
        at(
            cs,
            p1 + bc1(mv).len() + bc2(mv).len() + bc3(mv).len() + bc4(mv).len() + bc5(mv).len()
                + bc6(mv).len() + bc7(mv).len() + bc8(mv).len() + bc9(mv).len(),
            kic(mv),
        ),
        p1 + bc1(mv).len() + bc2(mv).len() + bc3(mv).len() + bc4(mv).len() + bc5(mv).len() + bc6(
            mv,
        ).len() + bc7(mv).len() + bc8(mv).len() + bc9(mv).len() + kic(mv).len() == cs.len(),
        -0x8000_0000_0000_0000 <= mv.cell_size <= 0x7fff_ffff_ffff_ffff,
        -0x8000_0000_0000_0000 <= mv.zoom_x <= 0x7fff_ffff_ffff_ffff,
        -0x8000_0000_0000_0000 <= mv.zoom_y <= 0x7fff_ffff_ffff_ffff,
        forall|k: int|
            0 <= k < mv.icons.len() ==> -0x8000_0000_0000_0000 <= (#[trigger] mv.icons[k]).x
                <= 0x7fff_ffff_ffff_ffff && -0x8000_0000_0000_0000 <= mv.icons[k].y
                <= 0x7fff_ffff_ffff_ffff,
    ensures
        parse_fields(cs, p1, default_layout_v(), fuel0) == Some((mv, cs.len() as int)),
{
    let p6 = p1 + bc1(mv).len() + bc2(mv).len() + bc3(mv).len() + bc4(mv).len() + bc5(mv).len();
    assert(cs[p6] == '"') by {
        lemma_at_index(cs, p6, bc6(mv), 0);
    }
    lemma_rt_fields_front(cs, p1, mv, fuel0);
    lemma_rt_fields_back(cs, p6, mv, first_five(mv), (fuel0 - 5) as nat);
    assert((LayoutV {
        drilldown: mv.drilldown,
        zoom: mv.zoom,
        zoom_x: mv.zoom_x,
        zoom_y: mv.zoom_y,
        icons: mv.icons,
        ..first_five(mv)
    }) =~= mv);
}


/// The save/load round trip: parsing the stable encoding of any layout
/// yields that layout back, field for field, the icon map entry for entry.
#[verifier::rlimit(100)]
pub proof fn lemma_save_load_round_trip(m: MemoFolder)
    ensures
        parse_layout(json_of(m@)) == Some(m@),
{
    let mv = m@;
    let cs = json_of(mv);
    let es = mv.icons;
    assert forall|k: int| 0 <= k < es.len() implies -0x8000_0000_0000_0000 <= (
    #[trigger] es[k]).x <= 0x7fff_ffff_ffff_ffff && -0x8000_0000_0000_0000 <= es[k].y
        <= 0x7fff_ffff_ffff_ffff by {
        assert(es[k] == m.icons@[k]@);
    }
    let b1 = bchunk("background_color"@, json_str(mv.background_color));
    let b2 = bchunk("font_color"@, json_str(mv.font_color));
    let b3 = bchunk("font_size"@, json_str(mv.font_size));
    let b4 = bchunk("font_bold"@, opt_bool_lit(mv.font_bold));
    let b5 = bchunk("cell_size"@, dec_i64(mv.cell_size));
    let b6 = bchunk("drilldown"@, bool_lit(mv.drilldown));
    let b7 = bchunk("zoom"@, bool_lit(mv.zoom));
    let b8 = bchunk("zoom_x"@, dec_i64(mv.zoom_x));
    let b9 = bchunk("zoom_y"@, dec_i64(mv.zoom_y));
    let ki = kv("icons"@, icons_json(es));
    let tail = seq!['\n', '}'];
    // Pin every chunk of the encoding at its position.
    assert(at(cs, 0, cs)) by {
        assert(cs.subrange(0, cs.len() as int) =~= cs);
    }
    assert(cs =~= fields_json(mv) + (ki + tail));
    lemma_at_split(cs, 0, fields_json(mv), ki + tail);
    lemma_fields_json_chunks(mv);
    lemma_at_split(cs, 0, seq!['{', '\n'], b1 + (b2 + (b3 + (b4 + (b5 + (b6 + (b7 + (b8
        + b9))))))));
    let p1 = 2;
    lemma_at_split(cs, p1, b1, b2 + (b3 + (b4 + (b5 + (b6 + (b7 + (b8 + b9)))))));
    let p2 = p1 + b1.len();
    lemma_at_split(cs, p2, b2, b3 + (b4 + (b5 + (b6 + (b7 + (b8 + b9))))));
    let p3 = p2 + b2.len();
    lemma_at_split(cs, p3, b3, b4 + (b5 + (b6 + (b7 + (b8 + b9)))));
    let p4 = p3 + b3.len();
    lemma_at_split(cs, p4, b4, b5 + (b6 + (b7 + (b8 + b9))));
    let p5 = p4 + b4.len();
    lemma_at_split(cs, p5, b5, b6 + (b7 + (b8 + b9)));
    let p6 = p5 + b5.len();
    lemma_at_split(cs, p6, b6, b7 + (b8 + b9));
    let p7 = p6 + b6.len();
    lemma_at_split(cs, p7, b7, b8 + b9);
    let p8 = p7 + b7.len();
    lemma_at_split(cs, p8, b8, b9);
    let p9 = p8 + b8.len();
    let p10 = p9 + b9.len();
    assert(p10 == fields_json(mv).len());
    lemma_at_split(cs, p10, ki, tail);
    lemma_at_join(cs, p10, ki, tail);
    // The opening of the parse.
    lemma_at_index(cs, 0, seq!['{', '\n'], 0);
    lemma_at_index(cs, 0, seq!['{', '\n'], 1);
    assert(cs[p1] == '"') by {
        lemma_at_index(cs, p1, b1, 0);
    }
    lemma_skip_ws_stop(cs, 0);
    lemma_skip_ws_one(cs, 1);
    // The ten fields.
    let fuel0 = (cs.len() + 1) as nat;
    lemma_icons_body_len(es);
    assert(fuel0 >= 10 + es.len());
    lemma_rt_fields(cs, p1, mv, fuel0);
    lemma_skip_ws_stop(cs, cs.len() as int);
    assert(parse_layout(cs) == Some(mv));
}

} // verus!
