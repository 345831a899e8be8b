//! Drag-and-drop: the collision-checked drop protocol and the position scan
//! that persists user-placed cells.
//!
//! A drop has two steps. `drop_cell` decides: it rejects a colliding drop,
//! and for an accepted one clears the dropped cell's newly-added flag and
//! returns the layout to save, with every deliberately placed cell's live
//! position scanned into the icon map. Only after that layout is saved does
//! `apply_drop` move the cell, so a failed save leaves the canvas unmoved.

use vstd::prelude::*;
use vstd::pervasive::VecAdditionalExecFns;

use crate::geom::{
    first_hit, occupies, probe_points, spec_collides, unscale_coord, unscale_coord_exec, Geom,
    COORD_MAX,
};
use crate::metafolder::{unique_names, DirItem, MetaFolder};
use crate::settings::{IconEntry, MemoFolder, MemoIcon};

verus! {

/// The icon map a position scan produces: every cell in registry order,
/// except newly added ones, each at its live position — but the cell called
/// `dropped` at `(x, y)` instead, taken from the drop rather than from the
/// not-yet-moved canvas.
pub open spec fn scan_icons(
    items: Seq<DirItem>,
    geoms: Seq<Geom>,
    added: Seq<bool>,
    dropped: Seq<char>,
    x: int,
    y: int,
) -> Seq<IconEntry>
    decreases items.len(),
{
    if items.len() == 0 {
        Seq::empty()
    } else {
        let rest = scan_icons(
            items.drop_last(),
            geoms.drop_last(),
            added.drop_last(),
            dropped,
            x,
            y,
        );
        if items.last().name@ == dropped {
            rest.push(
                IconEntry {
                    name: items.last().name,
                    icon: MemoIcon { position_x: x as i64, position_y: y as i64 },
                },
            )
        } else if added.last() {
            rest
        } else {
            rest.push(
                IconEntry {
                    name: items.last().name,
                    icon: MemoIcon {
                        position_x: geoms.last().pos_x,
                        position_y: geoms.last().pos_y,
                    },
                },
            )
        }
    }
}

/// Newly-added exclusion: a cell still flagged newly added, other than the
/// dropped one, appears under no name in the scanned icon map.
pub proof fn lemma_newly_added_excluded(
    items: Seq<DirItem>,
    geoms: Seq<Geom>,
    added: Seq<bool>,
    dropped: Seq<char>,
    x: int,
    y: int,
    i: int,
)
    requires
        items.len() == geoms.len(),
        items.len() == added.len(),
        unique_names(items),
        0 <= i < items.len(),
        added[i],
        items[i].name@ != dropped,
    ensures
        forall|k: int|
            0 <= k < scan_icons(items, geoms, added, dropped, x, y).len()
                ==> (#[trigger] scan_icons(items, geoms, added, dropped, x, y)[k]).name@
                != items[i].name@,
    decreases items.len(),
{
    if items.len() > 0 {
        let m = items.len() - 1;
        assert(forall|a: int, b: int|
            0 <= a < b < m ==> (#[trigger] items.drop_last()[a]).name@ != (
            #[trigger] items.drop_last()[b]).name@);
        if i < m {
            lemma_newly_added_excluded(
                items.drop_last(),
                geoms.drop_last(),
                added.drop_last(),
                dropped,
                x,
                y,
                i,
            );
            assert(items[m].name@ != items[i].name@);
        } else {
            // The last cell is the flagged one: it is skipped, and no
            // earlier cell carries its name.
            assert forall|k: int|
                0 <= k < scan_icons(
                    items.drop_last(),
                    geoms.drop_last(),
                    added.drop_last(),
                    dropped,
                    x,
                    y,
                ).len() implies (#[trigger] scan_icons(
                items.drop_last(),
                geoms.drop_last(),
                added.drop_last(),
                dropped,
                x,
                y,
            )[k]).name@ != items[i].name@ by {
                lemma_scan_names_from_items(
                    items.drop_last(),
                    geoms.drop_last(),
                    added.drop_last(),
                    dropped,
                    x,
                    y,
                );
                let j = choose|j: int|
                    0 <= j < m && (#[trigger] items.drop_last()[j]).name@ == scan_icons(
                        items.drop_last(),
                        geoms.drop_last(),
                        added.drop_last(),
                        dropped,
                        x,
                        y,
                    )[k].name@;
                assert(items[j].name@ != items[i].name@);
            }
        }
    }
}

/// A deliberately placed cell other than the dropped one appears in the
/// scanned icon map with exactly its live position.
pub proof fn lemma_scan_has_cell(
    items: Seq<DirItem>,
    geoms: Seq<Geom>,
    added: Seq<bool>,
    dropped: Seq<char>,
    x: int,
    y: int,
    i: int,
)
    requires
        items.len() == geoms.len(),
        items.len() == added.len(),
        0 <= i < items.len(),
        !added[i],
        items[i].name@ != dropped,
    ensures
        exists|k: int|
            0 <= k < scan_icons(items, geoms, added, dropped, x, y).len()
                && #[trigger] scan_icons(items, geoms, added, dropped, x, y)[k] == (IconEntry {
                name: items[i].name,
                icon: MemoIcon { position_x: geoms[i].pos_x, position_y: geoms[i].pos_y },
            }),
    decreases items.len(),
{
    let s = scan_icons(items, geoms, added, dropped, x, y);
    let m = items.len() - 1;
    if i == m {
        assert(s[s.len() - 1] == (IconEntry {
            name: items[i].name,
            icon: MemoIcon { position_x: geoms[i].pos_x, position_y: geoms[i].pos_y },
        }));
    } else {
        lemma_scan_has_cell(
            items.drop_last(),
            geoms.drop_last(),
            added.drop_last(),
            dropped,
            x,
            y,
            i,
        );
        let rest = scan_icons(
            items.drop_last(),
            geoms.drop_last(),
            added.drop_last(),
            dropped,
            x,
            y,
        );
        let k = choose|k: int|
            0 <= k < rest.len() && #[trigger] rest[k] == (IconEntry {
                name: items.drop_last()[i].name,
                icon: MemoIcon {
                    position_x: geoms.drop_last()[i].pos_x,
                    position_y: geoms.drop_last()[i].pos_y,
                },
            });
        assert(s[k] == rest[k]);
    }
}

/// Every name in a scanned icon map is the name of some cell.
pub proof fn lemma_scan_names_from_items(
    items: Seq<DirItem>,
    geoms: Seq<Geom>,
    added: Seq<bool>,
    dropped: Seq<char>,
    x: int,
    y: int,
)
    requires
        items.len() == geoms.len(),
        items.len() == added.len(),
    ensures
        forall|k: int|
            0 <= k < scan_icons(items, geoms, added, dropped, x, y).len() ==> exists|j: int|
                0 <= j < items.len() && (#[trigger] items[j]).name@ == (#[trigger] scan_icons(
                    items,
                    geoms,
                    added,
                    dropped,
                    x,
                    y,
                )[k]).name@,
    decreases items.len(),
{
    if items.len() > 0 {
        lemma_scan_names_from_items(
            items.drop_last(),
            geoms.drop_last(),
            added.drop_last(),
            dropped,
            x,
            y,
        );
        let m = items.len() - 1;
        let s = scan_icons(items, geoms, added, dropped, x, y);
        let rest = scan_icons(
            items.drop_last(),
            geoms.drop_last(),
            added.drop_last(),
            dropped,
            x,
            y,
        );
        assert forall|k: int| 0 <= k < s.len() implies exists|j: int|
            0 <= j < items.len() && (#[trigger] items[j]).name@ == (#[trigger] s[k]).name@ by {
            if k < rest.len() {
                let j = choose|j: int|
                    0 <= j < m && (#[trigger] items.drop_last()[j]).name@ == rest[k].name@;
                assert(items[j].name@ == s[k].name@);
            } else {
                assert(s[k].name@ == items[m].name@);
            }
        }
    }
}

/// The verdict of a drop.
pub enum DropPrep {
    /// The drop rectangle collides with another cell: nothing changes and
    /// nothing is persisted; the dragged cell snaps back.
    Rejected,
    /// No cell carries the dropped name: the drop is abandoned.
    Unknown,
    /// The drop is accepted: the layout to persist, with the dropped cell
    /// at its target and every other deliberately placed cell scanned.
    Accepted(MemoFolder),
}

/// Index of the cell called `name`.
pub open spec fn idx_of(items: Seq<DirItem>, name: Seq<char>) -> int {
    choose|i: int| 0 <= i < items.len() && (#[trigger] items[i]).name@ == name
}

impl MetaFolder {
    /// Phase one of a drop of the cell called `name` onto `(x, y)`: rejects
    /// it when the five-point test finds another cell under the drop
    /// rectangle (taken at the dragged cell's size); otherwise clears the
    /// cell's newly-added flag and returns the layout to persist. The cell
    /// itself does not move until `apply_drop`, after the save succeeded.
    pub fn drop_cell(&mut self, name: &String, x: i64, y: i64, memo: MemoFolder) -> (r: DropPrep)
        requires
            old(self).wf(),
            -COORD_MAX <= x <= COORD_MAX,
            -COORD_MAX <= y <= COORD_MAX,
        ensures
            final(self).wf(),
            !old(self).has_name(name@) ==> r is Unknown && *final(self) == *old(self),
            old(self).has_name(name@) ==> ({
                let i = idx_of(old(self).items@, name@);
                let coll = spec_collides(
                    old(self).names(),
                    old(self).geoms@,
                    name@,
                    x as int,
                    y as int,
                    old(self).geoms@[i].w as int,
                    old(self).geoms@[i].h as int,
                );
                if coll {
                    r is Rejected && *final(self) == *old(self)
                } else {
                    &&& *final(self) == (MetaFolder { added: final(self).added, ..*old(self) })
                    &&& final(self).added@ =~= old(self).added@.update(i, false)
                    &&& r matches DropPrep::Accepted(m) && m == (MemoFolder {
                        icons: m.icons,
                        ..memo
                    }) && m.icons@ == scan_icons(
                        old(self).items@,
                        old(self).geoms@,
                        final(self).added@,
                        name@,
                        x as int,
                        y as int,
                    )
                }
            }),
    {
        let idx = match self.index_of(name) {
            Some(i) => i,
            None => {
                return DropPrep::Unknown;
            },
        };
        proof {
            assert(idx_of(self.items@, name@) == idx as int) by {
                let j = idx_of(self.items@, name@);
                assert(0 <= j < self.items@.len() && self.items@[j].name@ == name@);
                if j != idx as int {
                    if j < idx as int {
                        assert(self.items@[j].name@ != self.items@[idx as int].name@);
                    } else {
                        assert(self.items@[idx as int].name@ != self.items@[j].name@);
                    }
                }
            }
        }
        let g = self.geoms[idx];
        proof {
            assert(self.geoms@[idx as int].wf());
        }
        if self.is_something_underneath(name, x, y, g.w, g.h) {
            return DropPrep::Rejected;
        }
        self.added.set(idx, false);
        let scanned = self.scan_icons_exec(name, x, y);
        let mut m = memo;
        m.icons = scanned;
        DropPrep::Accepted(m)
    }

    /// The position scan: builds the icon map of every deliberately placed
    /// cell at its live position, with the cell called `dropped` recorded at
    /// `(x, y)` instead.
    pub fn scan_icons_exec(&self, dropped: &String, x: i64, y: i64) -> (r: Vec<IconEntry>)
        requires
            self.wf(),
        ensures
            r@ == scan_icons(self.items@, self.geoms@, self.added@, dropped@, x as int, y as int),
    {
        let n = self.items.len();
        let mut out: Vec<IconEntry> = Vec::new();
        let mut i: usize = 0;
        proof {
            assert(self.items@.subrange(0, 0) =~= Seq::<DirItem>::empty());
        }
        while i < n
            invariant
                i <= n,
                n == self.items@.len(),
                out@ == scan_icons(
                    self.items@.subrange(0, i as int),
                    self.geoms@.subrange(0, i as int),
                    self.added@.subrange(0, i as int),
                    dropped@,
                    x as int,
                    y as int,
                ),
            decreases n - i,
        {
            proof {
                assert(self.items@.subrange(0, i + 1).drop_last() =~= self.items@.subrange(
                    0,
                    i as int,
                ));
                assert(self.geoms@.subrange(0, i + 1).drop_last() =~= self.geoms@.subrange(
                    0,
                    i as int,
                ));
                assert(self.added@.subrange(0, i + 1).drop_last() =~= self.added@.subrange(
                    0,
                    i as int,
                ));
                assert(self.items@.subrange(0, i + 1).last() == self.items@[i as int]);
                assert(self.geoms@.subrange(0, i + 1).last() == self.geoms@[i as int]);
                assert(self.added@.subrange(0, i + 1).last() == self.added@[i as int]);
            }
            if self.items[i].name.eq(dropped) {
                out.push(
                    IconEntry {
                        name: self.items[i].name.clone(),
                        icon: MemoIcon { position_x: x, position_y: y },
                    },
                );
            } else if self.added[i] {
            } else {
                out.push(
                    IconEntry {
                        name: self.items[i].name.clone(),
                        icon: MemoIcon {
                            position_x: self.geoms[i].pos_x,
                            position_y: self.geoms[i].pos_y,
                        },
                    },
                );
            }
            i = i + 1;
        }
        proof {
            assert(self.items@.subrange(0, n as int) =~= self.items@);
            assert(self.geoms@.subrange(0, n as int) =~= self.geoms@);
            assert(self.added@.subrange(0, n as int) =~= self.added@);
        }
        out
    }

    /// The position scan that persists the canvas: the given layout with
    /// its icon map replaced by every deliberately placed cell's live
    /// position, the cell called `dropped` recorded at `(x, y)` instead.
    pub fn scan_positions(&self, memo: MemoFolder, dropped: &String, x: i64, y: i64) -> (r:
        MemoFolder)
        requires
            self.wf(),
        ensures
            r == (MemoFolder { icons: r.icons, ..memo }),
            r.icons@ == scan_icons(self.items@, self.geoms@, self.added@, dropped@, x as int, y as int),
    {
        let icons = self.scan_icons_exec(dropped, x, y);
        let mut m = memo;
        m.icons = icons;
        m
    }

    /// Phase two of an accepted drop, run after the layout was saved: moves
    /// the cell called `name` to `(x, y)`. During a zoom session the cell's
    /// baseline becomes the target unscaled by the active percentages, so a
    /// later cancel puts the cell where the session would have put it.
    pub fn apply_drop(&mut self, name: &String, x: i64, y: i64) -> (found: bool)
        requires
            old(self).wf(),
            -COORD_MAX <= x <= COORD_MAX,
            -COORD_MAX <= y <= COORD_MAX,
        ensures
            final(self).wf(),
            found == old(self).has_name(name@),
            !found ==> *final(self) == *old(self),
            found ==> ({
                let i = idx_of(old(self).items@, name@);
                let g = old(self).geoms@[i];
                &&& *final(self) == (MetaFolder { geoms: final(self).geoms, ..*old(self) })
                &&& final(self).geoms@ =~= old(self).geoms@.update(i, final(self).geoms@[i])
                &&& final(self).geoms@[i] == (Geom {
                    pos_x: x,
                    pos_y: y,
                    base_x: (if old(self).zoom_x == 0 {
                        x as int
                    } else {
                        unscale_coord(x as int, old(self).zoom_x as int)
                    }) as i64,
                    base_y: (if old(self).zoom_y == 0 {
                        y as int
                    } else {
                        unscale_coord(y as int, old(self).zoom_y as int)
                    }) as i64,
                    ..g
                })
            }),
    {
        let idx = match self.index_of(name) {
            Some(i) => i,
            None => {
                return false;
            },
        };
        proof {
            assert(idx_of(self.items@, name@) == idx as int) by {
                let j = idx_of(self.items@, name@);
                assert(0 <= j < self.items@.len() && self.items@[j].name@ == name@);
                if j != idx as int {
                    if j < idx as int {
                        assert(self.items@[j].name@ != self.items@[idx as int].name@);
                    } else {
                        assert(self.items@[idx as int].name@ != self.items@[j].name@);
                    }
                }
            }
        }
        let g = self.geoms[idx];
        proof {
            assert(self.geoms@[idx as int].wf());
        }
        let (bx, by): (i64, i64) = if self.zoom_x == 0 {
            (x, y)
        } else {
            (unscale_coord_exec(x, self.zoom_x), unscale_coord_exec(y, self.zoom_y))
        };
        let ng = Geom { pos_x: x, pos_y: y, base_x: bx, base_y: by, ..g };
        self.geoms.set(idx, ng);
        proof {
            assert forall|k: int| 0 <= k < self.geoms@.len() implies (
            #[trigger] self.geoms@[k]).wf() by {
                if k != idx as int {
                    assert(old(self).geoms@[k].wf());
                }
            }
            if self.zoom_x == 0 {
                assert forall|k: int| 0 <= k < self.geoms@.len() implies (
                #[trigger] self.geoms@[k]).pos_x == self.geoms@[k].base_x && self.geoms@[k].pos_y
                    == self.geoms@[k].base_y by {
                    if k != idx as int {
                        assert(old(self).geoms@[k] == self.geoms@[k]);
                    }
                }
            }
        }
        true
    }
}

/// Collision rejection: a drop rectangle that another cell fully covers at
/// every probe point, while the dragged cell covers none of them, collides.
pub proof fn lemma_drop_onto_occupied_collides(
    names: Seq<Seq<char>>,
    geoms: Seq<Geom>,
    name: Seq<char>,
    ia: int,
    ib: int,
    x: int,
    y: int,
    w: int,
    h: int,
)
    requires
        names.len() == geoms.len(),
        0 <= ia < names.len(),
        0 <= ib < names.len(),
        ia != ib,
        names[ia] == name,
        forall|k: int| 0 <= k < names.len() && k != ia ==> (#[trigger] names[k]) != name,
        w >= 0,
        h >= 0,
        // The other cell covers the whole drop rectangle.
        geoms[ib].pos_x <= x,
        x + w <= geoms[ib].pos_x + geoms[ib].w,
        geoms[ib].pos_y <= y,
        y + h <= geoms[ib].pos_y + geoms[ib].h,
        // The dragged cell covers no probe point of the rectangle.
        forall|k: int|
            0 <= k < 5 ==> !occupies(
                geoms[ia],
                (#[trigger] probe_points(x, y, w, h)[k]).0,
                probe_points(x, y, w, h)[k].1,
            ),
    ensures
        spec_collides(names, geoms, name, x, y, w, h),
{
    let pts = probe_points(x, y, w, h);
    assert(occupies(geoms[ib], pts[0].0, pts[0].1));
    if first_hit(geoms, pts[0].0, pts[0].1) is None {
        crate::geom::lemma_no_hit_unoccupied(geoms, pts[0].0, pts[0].1, 0);
        assert(false);
    }
    let k0 = first_hit(geoms, pts[0].0, pts[0].1)->0;
    crate::layout::lemma_hit_occupies(geoms, pts[0].0, pts[0].1, 0, k0);
    assert(!occupies(geoms[ia], pts[0].0, pts[0].1));
    assert(k0 != ia);
    assert(names[k0] != name);
}

} // verus!
