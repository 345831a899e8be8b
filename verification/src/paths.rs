//! Folder path helpers: the starting folder and the parent of an open folder.
//!
//! Paths are plain strings; a folder path always ends in `/`. The parent
//! computation mirrors the standard path walk: trailing separator runs are
//! ignored, the last component is cut together with the separator run
//! before it, and the root's own `/` is kept.

use vstd::prelude::*;

verus! {

/// The sequence of characters up to and including the last `/` of `s`,
/// with that final `/` itself removed; empty when `s` holds no `/`.
pub open spec fn parent_prefix(s: Seq<char>) -> Seq<char>
    decreases s.len(),
{
    if s.len() == 0 {
        s
    } else if s[s.len() - 1] == '/' {
        s.drop_last()
    } else {
        parent_prefix(s.drop_last())
    }
}

/// `s` with every trailing `/` removed.
pub open spec fn strip_trailing_slashes(s: Seq<char>) -> Seq<char>
    decreases s.len(),
{
    if s.len() > 0 && s[s.len() - 1] == '/' {
        strip_trailing_slashes(s.drop_last())
    } else {
        s
    }
}

/// The parent of a path `s` that has no trailing separator and at least
/// one character: the text before its last component, with the separator
/// run before the component cut as well; the root's single `/` is kept,
/// as the standard path walk keeps it.
pub open spec fn parent_of(s: Seq<char>) -> Seq<char> {
    let pre = strip_trailing_slashes(parent_prefix(s));
    if pre.len() == 0 && s[0] == '/' {
        seq!['/']
    } else {
        pre
    }
}

/// The parent folder of `path`, with a trailing `/`; `None` when the path
/// is the root or empty (nothing but separators), which has no parent.
pub open spec fn spec_up(path: Seq<char>) -> Option<Seq<char>> {
    if strip_trailing_slashes(path).len() == 0 {
        None
    } else {
        Some(parent_of(strip_trailing_slashes(path)).push('/'))
    }
}

/// Index just past the last `/` in `s`, or 0 when `s` holds none.
fn last_slash_end(s: &str) -> (r: usize)
    requires
        s@.len() < usize::MAX,
    ensures
        r <= s@.len(),
        s@.subrange(0, r as int) == parent_prefix(s@),
{
    let n = s.unicode_len();
    let mut i = n;
    proof {
        assert(s@.subrange(0, n as int) =~= s@);
    }
    while i > 0
        invariant
            i <= n,
            n == s@.len(),
            parent_prefix(s@.subrange(0, i as int)) == parent_prefix(s@),
        decreases i,
    {
        let c = s.get_char(i - 1);
        proof {
            assert(s@.subrange(0, i as int).drop_last() =~= s@.subrange(0, i - 1));
        }
        if c == '/' {
            proof {
                assert(parent_prefix(s@.subrange(0, i as int)) == s@.subrange(0, i - 1));
            }
            return i - 1;
        }
        i = i - 1;
    }
    proof {
        assert(s@.subrange(0, 0) =~= Seq::<char>::empty());
        assert(parent_prefix(s@.subrange(0, 0)) =~= Seq::<char>::empty());
        assert(s@.subrange(0, 0) == parent_prefix(s@));
    }
    0
}

/// The parent folder of `path`, with a trailing `/`; `None` when the path
/// is the root or holds nothing but separators.
pub fn up(path: &String) -> (r: Option<String>)
    requires
        path@.len() < usize::MAX,
    ensures
        r matches Some(p) ==> spec_up(path@) == Some(p@),
        r is None ==> spec_up(path@) is None,
{
    proof {
        reveal_strlit("/");
    }
    let n = path.as_str().unicode_len();
    let mut e = n;
    proof {
        assert(path@.subrange(0, n as int) =~= path@);
    }
    while e > 0 && path.as_str().get_char(e - 1) == '/'
        invariant
            e <= n,
            n == path@.len(),
            strip_trailing_slashes(path@.subrange(0, e as int)) == strip_trailing_slashes(path@),
        decreases e,
    {
        proof {
            assert(path@.subrange(0, e as int).drop_last() =~= path@.subrange(0, e - 1));
        }
        e = e - 1;
    }
    proof {
        assert(strip_trailing_slashes(path@.subrange(0, e as int)) == path@.subrange(0, e as int));
    }
    if e == 0 {
        proof {
            assert(path@.subrange(0, 0) =~= Seq::<char>::empty());
        }
        return None;
    }
    let core = path.as_str().substring_char(0, e);
    proof {
        assert(core@ == strip_trailing_slashes(path@));
    }
    let cut = last_slash_end(core);
    let mut p = cut;
    proof {
        assert(core@.subrange(0, cut as int) == parent_prefix(core@));
    }
    while p > 0 && core.get_char(p - 1) == '/'
        invariant
            p <= cut,
            cut <= core@.len(),
            strip_trailing_slashes(core@.subrange(0, p as int)) == strip_trailing_slashes(
                parent_prefix(core@),
            ),
        decreases p,
    {
        proof {
            assert(core@.subrange(0, p as int).drop_last() =~= core@.subrange(0, p - 1));
        }
        p = p - 1;
    }
    proof {
        assert(strip_trailing_slashes(core@.subrange(0, p as int)) == core@.subrange(0, p as int));
        if p == 0 {
            assert(core@.subrange(0, 0) =~= Seq::<char>::empty());
        }
    }
    let mut parent: String = if p == 0 && core.get_char(0) == '/' {
        String::from_str("/")
    } else {
        String::from_str(core.substring_char(0, p))
    };
    proof {
        assert(parent@ =~= parent_of(strip_trailing_slashes(path@)));
    }
    parent.append("/");
    proof {
        assert(parent@ =~= parent_of(strip_trailing_slashes(path@)).push('/'));
    }
    Some(parent)
}

/// The folder shown when the view opens: the home folder, or its `Desktop`
/// subfolder when one exists, always with a trailing `/`.
///
/// The caller supplies the home folder path and whether `Desktop` exists
/// under it; this function only assembles the result.
pub fn initial_dir(home: &str, desktop_exists: bool) -> (r: String)
    ensures
        desktop_exists ==> r@ == home@ + "/Desktop/"@,
        !desktop_exists ==> r@ == home@ + "/"@,
{
    let mut path = String::from_str(home);
    if desktop_exists {
        path.append("/Desktop/");
        proof {
            reveal_strlit("/Desktop/");
        }
    } else {
        path.append("/");
        proof {
            reveal_strlit("/");
        }
    }
    path
}

} // verus!
