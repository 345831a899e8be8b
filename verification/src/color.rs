//! Color conversion: turns the toolkit's `rgba(r, g, b, a)` display string
//! into the `#RGB` hex form the layout stores for the font color.
//!
//! The conversion reads the first three runs of digits in the input and
//! writes each as uppercase hex without zero padding. An input with fewer
//! than three digit runs, or a run beyond the 16-bit range, yields nothing.

use vstd::prelude::*;

use crate::codec::is_digit;
use crate::parse::chars_of;
use crate::roundtrip::ext_val;

verus! {

/// The maximal digit runs of `s` from position `i` on, with `cur` the run
/// in progress just before `i`.
pub open spec fn runs_acc(s: Seq<char>, i: int, cur: Seq<char>) -> Seq<Seq<char>>
    decreases s.len() - i,
{
    if i < 0 || i >= s.len() {
        if cur.len() > 0 {
            seq![cur]
        } else {
            Seq::empty()
        }
    } else if is_digit(s[i]) {
        runs_acc(s, i + 1, cur.push(s[i]))
    } else if cur.len() > 0 {
        seq![cur] + runs_acc(s, i + 1, Seq::empty())
    } else {
        runs_acc(s, i + 1, Seq::empty())
    }
}

/// The maximal digit runs of `s`, in order.
pub open spec fn digit_runs(s: Seq<char>) -> Seq<Seq<char>> {
    runs_acc(s, 0, Seq::empty())
}

/// The uppercase hex digit character for `d`.
pub open spec fn hex_digit_char(d: int) -> char {
    if d == 0 {
        '0'
    } else if d == 1 {
        '1'
    } else if d == 2 {
        '2'
    } else if d == 3 {
        '3'
    } else if d == 4 {
        '4'
    } else if d == 5 {
        '5'
    } else if d == 6 {
        '6'
    } else if d == 7 {
        '7'
    } else if d == 8 {
        '8'
    } else if d == 9 {
        '9'
    } else if d == 10 {
        'A'
    } else if d == 11 {
        'B'
    } else if d == 12 {
        'C'
    } else if d == 13 {
        'D'
    } else if d == 14 {
        'E'
    } else {
        'F'
    }
}

/// The uppercase hex digits of a nonnegative number, unpadded.
pub open spec fn hex_u16(n: int) -> Seq<char>
    decreases n,
{
    if n < 16 {
        seq![hex_digit_char(n)]
    } else {
        hex_u16(n / 16).push(hex_digit_char(n % 16))
    }
}

/// The `#RGB` hex form of an `rgba(...)` display string: the first three
/// digit runs as uppercase hex; nothing when fewer than three runs appear
/// or a run passes the 16-bit range.
pub open spec fn rgba_hex_of(s: Seq<char>) -> Option<Seq<char>> {
    let rs = digit_runs(s);
    if rs.len() < 3 {
        None
    } else {
        let r = ext_val(0, rs[0]);
        let g = ext_val(0, rs[1]);
        let b = ext_val(0, rs[2]);
        if r > 65535 || g > 65535 || b > 65535 {
            None
        } else {
            Some(seq!['#'] + hex_u16(r) + hex_u16(g) + hex_u16(b))
        }
    }
}

/// Appends the uppercase hex digits of `n`.
fn push_hex(out: &mut String, n: u32)
    ensures
        final(out)@ == old(out)@ + hex_u16(n as int),
    decreases n,
{
    if n >= 16 {
        push_hex(out, n / 16);
    }
    let d = n % 16;
    let c: char = if d == 0 {
        '0'
    } else if d == 1 {
        '1'
    } else if d == 2 {
        '2'
    } else if d == 3 {
        '3'
    } else if d == 4 {
        '4'
    } else if d == 5 {
        '5'
    } else if d == 6 {
        '6'
    } else if d == 7 {
        '7'
    } else if d == 8 {
        '8'
    } else if d == 9 {
        '9'
    } else if d == 10 {
        'A'
    } else if d == 11 {
        'B'
    } else if d == 12 {
        'C'
    } else if d == 13 {
        'D'
    } else if d == 14 {
        'E'
    } else {
        'F'
    };
    out.push(c);
    proof {
        assert(final(out)@ =~= old(out)@ + hex_u16(n as int));
    }
}

/// Converts an `rgba(r, g, b, a)` display string to the stored `#RGB`
/// uppercase hex form, reading the first three digit runs; `None` when the
/// input holds fewer than three or a run passes the 16-bit range.
pub fn rgba_to_hex(rgba: &str) -> (res: Option<String>)
    requires
        rgba@.len() < usize::MAX,
    ensures
        match rgba_hex_of(rgba@) {
            Some(h) => res matches Some(s) && s@ == h,
            None => res is None,
        },
{
    let cs = chars_of(rgba);
    let n = cs.len();
    let mut i: usize = 0;
    let mut count: usize = 0;
    let mut vals: Vec<u32> = Vec::new();
    let mut sats: Vec<bool> = Vec::new();
    let mut run_active = false;
    let mut v: u32 = 0;
    let mut sat = false;
    let ghost mut done: Seq<Seq<char>> = Seq::empty();
    let ghost mut cur: Seq<char> = Seq::empty();
    while i < n
        invariant
            i <= n,
            n == cs@.len(),
            cs@ == rgba@,
            run_active == (cur.len() > 0),
            !sat ==> v == ext_val(0, cur) && v <= 65535,
            sat ==> ext_val(0, cur) > 65535,
            digit_runs(rgba@) == done + runs_acc(rgba@, i as int, cur),
            done.len() == count,
            count <= i,
            vals@.len() == (if count < 3 {
                count as int
            } else {
                3
            }),
            sats@.len() == vals@.len(),
            forall|k: int|
                0 <= k < vals@.len() ==> ((#[trigger] sats@[k]) == (ext_val(0, done[k]) > 65535))
                    && (!sats@[k] ==> vals@[k] == ext_val(0, done[k])),
        decreases n - i,
    {
        let c = cs[i];
        let ghost cur0 = cur;
        let ghost done0 = done;
        if '0' <= c && c <= '9' {
            let d: u32 = (c as u32) - 48;
            proof {
                crate::roundtrip::lemma_ext_val_push(0, cur, c);
            }
            if run_active {
                if !sat {
                    let w: u32 = v * 10 + d;
                    if w > 65535 {
                        sat = true;
                        v = 0;
                    } else {
                        v = w;
                    }
                }
            } else {
                run_active = true;
                sat = false;
                v = d;
            }
            proof {
                cur = cur.push(c);
                assert(is_digit(rgba@[i as int]));
                assert(runs_acc(rgba@, i as int, cur0) == runs_acc(rgba@, i + 1, cur));
            }
        } else {
            if run_active {
                if count < 3 {
                    vals.push(v);
                    sats.push(sat);
                }
                count = count + 1;
                run_active = false;
                v = 0;
                sat = false;
                proof {
                    done = done.push(cur);
                    cur = Seq::empty();
                    assert(!is_digit(rgba@[i as int]));
                    assert(runs_acc(rgba@, i as int, cur0) == seq![cur0] + runs_acc(
                        rgba@,
                        i + 1,
                        cur,
                    ));
                    assert(done0 + (seq![cur0] + runs_acc(rgba@, i + 1, cur)) =~= done + runs_acc(
                        rgba@,
                        i + 1,
                        cur,
                    ));
                }
            } else {
                proof {
                    assert(!is_digit(rgba@[i as int]));
                    assert(cur =~= Seq::<char>::empty());
                    assert(runs_acc(rgba@, i as int, cur) == runs_acc(rgba@, i + 1, cur));
                }
            }
        }
        i = i + 1;
    }
    if run_active {
        if count < 3 {
            vals.push(v);
            sats.push(sat);
        }
        count = count + 1;
        proof {
            done = done.push(cur);
            assert(runs_acc(rgba@, n as int, cur) =~= seq![cur]);
            assert(digit_runs(rgba@) =~= done);
        }
    } else {
        proof {
            assert(runs_acc(rgba@, n as int, cur) =~= Seq::<Seq<char>>::empty());
            assert(digit_runs(rgba@) =~= done);
        }
    }
    if count < 3 {
        return None;
    }
    if sats[0] || sats[1] || sats[2] {
        return None;
    }
    let mut out = String::new();
    out.push('#');
    push_hex(&mut out, vals[0]);
    push_hex(&mut out, vals[1]);
    push_hex(&mut out, vals[2]);
    proof {
        assert(out@ =~= seq!['#'] + hex_u16(vals@[0] as int) + hex_u16(vals@[1] as int) + hex_u16(
            vals@[2] as int,
        ));
    }
    Some(out)
}

} // verus!
