//! Read-side view operations and cosmetic updates: the case-insensitive
//! name search and its highlight marks, the grid-snap tidy-up, the drag
//! payload, and the cosmetic overrides that write through to the layout.

use vstd::prelude::*;
use vstd::pervasive::VecAdditionalExecFns;

use crate::geom::{unscale_coord, unscale_coord_exec, Geom};
use crate::metafolder::{DirItem, MetaFolder};
use crate::settings::MemoFolder;

verus! {

/// What lowercasing a string yields. The result depends on the characters
/// alone, so one name stands for it; nothing more is assumed of it.
pub uninterp spec fn lower_of(s: Seq<char>) -> Seq<char>;

/// Relies on std's `str::to_lowercase`: the lowercase equivalent of the
/// string, a function of its characters alone, here handed out as its
/// character sequence.
#[verifier::external_body]
fn lower_chars(s: &String) -> (r: Vec<char>)
    ensures
        r@ == lower_of(s@),
{
    s.to_lowercase().chars().collect()
}

/// Whether `needle` stands within `hay` starting at `p`.
pub open spec fn is_substring_at(hay: Seq<char>, needle: Seq<char>, p: int) -> bool {
    0 <= p && p + needle.len() <= hay.len() && hay.subrange(p, p + needle.len()) == needle
}

/// Whether `needle` stands anywhere within `hay`.
pub open spec fn contains_seq(hay: Seq<char>, needle: Seq<char>) -> bool {
    exists|p: int| is_substring_at(hay, needle, p)
}

/// Whether the search text matches a cell name: a case-insensitive
/// substring test.
pub open spec fn cell_matches(name: Seq<char>, query: Seq<char>) -> bool {
    contains_seq(lower_of(name), lower_of(query))
}

/// How many cells match the search text.
pub open spec fn count_matches(items: Seq<DirItem>, query: Seq<char>) -> int
    decreases items.len(),
{
    if items.len() == 0 {
        0
    } else {
        count_matches(items.drop_last(), query) + if cell_matches(items.last().name@, query) {
            1 as int
        } else {
            0 as int
        }
    }
}

/// Whether the characters of `needle` stand within `hay`.
fn contains_chars(hay: &Vec<char>, needle: &Vec<char>) -> (r: bool)
    ensures
        r == contains_seq(hay@, needle@),
{
    let h = hay.len();
    let n = needle.len();
    if n > h {
        proof {
            assert forall|p: int| !is_substring_at(hay@, needle@, p) by {}
        }
        return false;
    }
    let mut p: usize = 0;
    while p <= h - n
        invariant
            n <= h,
            h == hay@.len(),
            n == needle@.len(),
            p <= h - n + 1,
            forall|q: int| 0 <= q < p ==> !is_substring_at(hay@, needle@, q),
        decreases h - n - p + 1,
    {
        let mut k: usize = 0;
        let mut hit = true;
        while k < n
            invariant
                k <= n,
                p + n <= h,
                h == hay@.len(),
                n == needle@.len(),
                hit == (forall|t: int| 0 <= t < k ==> hay@[p + t] == needle@[t]),
            decreases n - k,
        {
            if hay[p + k] != needle[k] {
                hit = false;
                k = n;
            } else {
                proof {
                    assert(hay@[p + k] == needle@[k as int]);
                }
                k = k + 1;
            }
        }
        if hit {
            proof {
                assert(hay@.subrange(p as int, p + n) =~= needle@);
                assert(is_substring_at(hay@, needle@, p as int));
            }
            return true;
        }
        proof {
            if is_substring_at(hay@, needle@, p as int) {
                assert forall|t: int| 0 <= t < n implies hay@[p + t] == needle@[t] by {
                    assert(hay@.subrange(p as int, p + n)[t] == needle@[t]);
                }
            }
        }
        p = p + 1;
    }
    proof {
        assert forall|q: int| !is_substring_at(hay@, needle@, q) by {
            if 0 <= q <= h - n {
                assert(!is_substring_at(hay@, needle@, q));
            }
        }
    }
    false
}

/// `c` snapped to the next multiple of five toward zero.
pub open spec fn snap5(c: int) -> int {
    if c >= 0 {
        c - c % 5
    } else {
        c + (-c) % 5
    }
}

/// What `begin_drag` captures: the dragged cell's name, its absolute
/// bounds in canvas coordinates at drag start, and the pointer's grab
/// offset within the cell, which the drop uses to compute the true target
/// as the pointer position minus the offset.
pub struct DragPayload {
    pub name: String,
    pub pos_x: i64,
    pub pos_y: i64,
    pub w: i64,
    pub h: i64,
    pub grabbed_x: i64,
    pub grabbed_y: i64,
}

impl MetaFolder {
    /// Marks every cell whose name contains the search text, ignoring
    /// case, and returns how many matched. Clears earlier marks first.
    /// A pure read-side feature: nothing is persisted.
    pub fn find_cell(&mut self, text: &String) -> (count: usize)
        requires
            old(self).wf(),
        ensures
            final(self).wf(),
            *final(self) == (MetaFolder { found: final(self).found, ..*old(self) }),
            final(self).found@.len() == old(self).n(),
            forall|i: int|
                0 <= i < old(self).n() ==> final(self).found@[i] == cell_matches(
                    old(self).name_at(i),
                    text@,
                ),
            count == count_matches(old(self).items@, text@),
    {
        let query = lower_chars(text);
        let n = self.items.len();
        let mut count: usize = 0;
        let mut i: usize = 0;
        proof {
            assert(self.items@.subrange(0, 0) =~= Seq::<DirItem>::empty());
        }
        while i < n
            invariant
                i <= n,
                n == self.n(),
                query@ == lower_of(text@),
                *self == (MetaFolder { found: self.found, ..*old(self) }),
                self.found@.len() == n,
                count <= i,
                forall|k: int|
                    0 <= k < i ==> self.found@[k] == cell_matches(old(self).name_at(k), text@),
                forall|k: int| i <= k < n ==> self.found@[k] == old(self).found@[k],
                count == count_matches(self.items@.subrange(0, i as int), text@),
            decreases n - i,
        {
            let name_l = lower_chars(&self.items[i].name);
            let hit = contains_chars(&name_l, &query);
            self.found.set(i, hit);
            if hit {
                count = count + 1;
            }
            proof {
                assert(self.items@.subrange(0, i + 1).drop_last() =~= self.items@.subrange(
                    0,
                    i as int,
                ));
                assert(self.items@.subrange(0, i + 1).last() == self.items@[i as int]);
            }
            i = i + 1;
        }
        proof {
            assert(self.items@.subrange(0, n as int) =~= self.items@);
        }
        count
    }

    /// Clears every search mark.
    pub fn clear_found_cells(&mut self)
        requires
            old(self).wf(),
        ensures
            final(self).wf(),
            *final(self) == (MetaFolder { found: final(self).found, ..*old(self) }),
            final(self).found@.len() == old(self).n(),
            forall|i: int| 0 <= i < old(self).n() ==> !final(self).found@[i],
    {
        let n = self.found.len();
        let mut i: usize = 0;
        while i < n
            invariant
                i <= n,
                n == self.found@.len(),
                *self == (MetaFolder { found: self.found, ..*old(self) }),
                self.found@.len() == n,
                forall|k: int| 0 <= k < i ==> !self.found@[k],
            decreases n - i,
        {
            self.found.set(i, false);
            i = i + 1;
        }
    }

    /// Whether the cell called `name` carries a search mark.
    pub fn is_cell_found(&self, name: &String) -> (r: bool)
        requires
            self.wf(),
        ensures
            r == exists|i: int|
                0 <= i < self.n() && self.name_at(i) == name@ && #[trigger] self.found@[i],
    {
        match self.index_of(name) {
            Some(i) => self.found[i],
            None => false,
        }
    }

    /// Captures the drag payload for the cell called `name`: its current
    /// absolute canvas bounds at drag start, carrying the pointer's grab
    /// offset the input layer reports.
    pub fn begin_drag(&self, name: &String, grabbed_x: i64, grabbed_y: i64) -> (r: Option<
        DragPayload,
    >)
        requires
            self.wf(),
        ensures
            match r {
                Some(p) => exists|i: int|
                    0 <= i < self.n() && self.name_at(i) == name@ && p.name@ == name@ && (
                    #[trigger] self.geoms@[i]).pos_x == p.pos_x && self.geoms@[i].pos_y == p.pos_y
                        && self.geoms@[i].w == p.w && self.geoms@[i].h == p.h && p.grabbed_x
                        == grabbed_x && p.grabbed_y == grabbed_y,
                None => !self.has_name(name@),
            },
    {
        match self.index_of(name) {
            Some(i) => {
                let g = self.geoms[i];
                Some(
                    DragPayload {
                        name: name.clone(),
                        pos_x: g.pos_x,
                        pos_y: g.pos_y,
                        w: g.w,
                        h: g.h,
                        grabbed_x,
                        grabbed_y,
                    },
                )
            },
            None => None,
        }
    }

    /// Snaps every cell to the five-unit grid, the tidy-up of a double tap
    /// on free canvas space: each coordinate moves to the next multiple of
    /// five toward zero. The caller persists through a position scan, as a
    /// drop does.
    pub fn tap(&mut self)
        requires
            old(self).wf(),
        ensures
            final(self).wf(),
            *final(self) == (MetaFolder { geoms: final(self).geoms, ..*old(self) }),
            final(self).geoms@.len() == old(self).n(),
            forall|i: int|
                0 <= i < old(self).n() ==> {
                    let g0 = old(self).geoms@[i];
                    let g1 = (#[trigger] final(self).geoms@[i]);
                    g1.pos_x == snap5(g0.pos_x as int) && g1.pos_y == snap5(g0.pos_y as int)
                        && g1.w == g0.w && g1.h == g0.h
                },
    {
        let n = self.geoms.len();
        let mut i: usize = 0;
        while i < n
            invariant
                i <= n,
                n == self.geoms@.len(),
                *self == (MetaFolder { geoms: self.geoms, ..*old(self) }),
                self.geoms@.len() == n,
                forall|k: int| i <= k < n ==> self.geoms@[k] == old(self).geoms@[k],
                forall|k: int|
                    0 <= k < i ==> {
                        let g0 = old(self).geoms@[k];
                        let g1 = (#[trigger] self.geoms@[k]);
                        g1.pos_x == snap5(g0.pos_x as int) && g1.pos_y == snap5(g0.pos_y as int)
                            && g1.w == g0.w && g1.h == g0.h && g1.wf() && (self.zoom_x == 0
                            ==> g1.pos_x == g1.base_x && g1.pos_y == g1.base_y)
                    },
            decreases n - i,
        {
            let g = self.geoms[i];
            proof {
                assert(old(self).geoms@[i as int].wf());
            }
            let nx = if g.pos_x >= 0 {
                g.pos_x - g.pos_x % 5
            } else {
                g.pos_x + (-g.pos_x) % 5
            };
            let ny = if g.pos_y >= 0 {
                g.pos_y - g.pos_y % 5
            } else {
                g.pos_y + (-g.pos_y) % 5
            };
            let (bx, by): (i64, i64) = if self.zoom_x == 0 {
                (nx, ny)
            } else {
                (unscale_coord_exec(nx, self.zoom_x), unscale_coord_exec(ny, self.zoom_y))
            };
            self.geoms.set(i, Geom { pos_x: nx, pos_y: ny, base_x: bx, base_y: by, ..g });
            i = i + 1;
        }
    }

    /// Switches drilldown navigation and writes it through to the layout.
    /// The in-memory change stands even if the caller's save then fails;
    /// the failure is reported separately.
    pub fn set_drilldown(&mut self, status: bool, memo: MemoFolder) -> (r: MemoFolder)
        requires
            old(self).wf(),
        ensures
            final(self).wf(),
            *final(self) == (MetaFolder { drilldown: status, ..*old(self) }),
            r == (MemoFolder { drilldown: status, ..memo }),
    {
        self.drilldown = status;
        memo.with_drilldown(status)
    }

    /// Replaces the background color and writes it through to the layout.
    /// The in-memory change stands even if the caller's save then fails.
    pub fn update_background_color(&mut self, new_color: String, memo: MemoFolder) -> (r:
        MemoFolder)
        requires
            old(self).wf(),
        ensures
            final(self).wf(),
            *final(self) == (MetaFolder {
                background_color: final(self).background_color,
                ..*old(self)
            }),
            final(self).background_color@ == new_color@,
            r == (MemoFolder { background_color: r.background_color, ..memo }),
            r.background_color@ == new_color@,
    {
        self.background_color = new_color.clone();
        memo.with_background_color(new_color)
    }
}

} // verus!
