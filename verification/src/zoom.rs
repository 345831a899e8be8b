//! The zoom transform: a reversible uniform percentage rescale of every
//! item's coordinates, relative to a stored baseline.
//!
//! A zoom session starts with the first `zoom` call from the unzoomed state,
//! where every live position equals its baseline. Previews rescale from the
//! baseline, which no preview touches, so `unzoom` restores the pre-session
//! positions exactly. `zoom_commit` freezes the live positions as the new
//! baseline and resets the session.

use vstd::prelude::*;
use vstd::pervasive::VecAdditionalExecFns;

use crate::geom::{scale_coord, scale_coord_exec, Geom, ZOOM_MAX};
use crate::metafolder::{pos_eq_base, MetaFolder};
use crate::settings::{IconEntry, MemoFolder, MemoIcon};

verus! {

/// One cell's geometry under a preview at `zx`/`zy` percent: the live
/// position is the rescaled baseline; the baseline itself is untouched.
pub open spec fn zoomed_geom(g: Geom, zx: int, zy: int) -> Geom {
    Geom {
        pos_x: scale_coord(g.base_x as int, zx) as i64,
        pos_y: scale_coord(g.base_y as int, zy) as i64,
        ..g
    }
}

/// Every cell's geometry under a preview at `zx`/`zy` percent.
pub open spec fn zoomed_geoms(gs: Seq<Geom>, zx: int, zy: int) -> Seq<Geom> {
    gs.map_values(|g: Geom| zoomed_geom(g, zx, zy))
}

/// One cell's geometry after the session is cancelled: back at the baseline.
pub open spec fn unzoomed_geom(g: Geom) -> Geom {
    Geom { pos_x: g.base_x, pos_y: g.base_y, ..g }
}

/// Every cell's geometry after the session is cancelled.
pub open spec fn unzoomed_geoms(gs: Seq<Geom>) -> Seq<Geom> {
    gs.map_values(|g: Geom| unzoomed_geom(g))
}

/// One cell's geometry after a commit: the live position becomes the
/// new baseline.
pub open spec fn committed_geom(g: Geom) -> Geom {
    Geom { base_x: g.pos_x, base_y: g.pos_y, ..g }
}

/// Every cell's geometry after a commit.
pub open spec fn committed_geoms(gs: Seq<Geom>) -> Seq<Geom> {
    gs.map_values(|g: Geom| committed_geom(g))
}

impl MetaFolder {
    /// Previews a zoom to `zoomx`/`zoomy` percent: moves every cell to its
    /// baseline position rescaled by the target percentages and records the
    /// session. A repeat of the active percentages is a no-op and returns
    /// `false`, so redundant slider events cause no movement and no save.
    /// Nothing is persisted by a preview.
    pub fn zoom(&mut self, zoomx: i64, zoomy: i64) -> (changed: bool)
        requires
            old(self).wf(),
            1 <= zoomx <= ZOOM_MAX,
            1 <= zoomy <= ZOOM_MAX,
        ensures
            final(self).wf(),
            changed == !(old(self).zoom_x == zoomx && old(self).zoom_y == zoomy),
            !changed ==> *final(self) == *old(self),
            changed ==> *final(self) == (MetaFolder {
                zoom: true,
                zoom_x: zoomx,
                zoom_y: zoomy,
                geoms: final(self).geoms,
                ..*old(self)
            }),
            changed ==> final(self).geoms@ =~= zoomed_geoms(old(self).geoms@, zoomx as int,
            zoomy as int),
    {
        if self.zoom_x == zoomx && self.zoom_y == zoomy {
            return false;
        }
        self.zoom = true;
        self.zoom_x = zoomx;
        self.zoom_y = zoomy;
        let n = self.geoms.len();
        let mut i: usize = 0;
        while i < n
            invariant
                i <= n,
                n == self.geoms@.len(),
                *self == (MetaFolder {
                    zoom: true,
                    zoom_x: zoomx,
                    zoom_y: zoomy,
                    geoms: self.geoms,
                    ..*old(self)
                }),
                forall|k: int| i <= k < n ==> self.geoms@[k] == old(self).geoms@[k],
                forall|k: int|
                    0 <= k < i ==> self.geoms@[k] == zoomed_geom(
                        old(self).geoms@[k],
                        zoomx as int,
                        zoomy as int,
                    ),
            decreases n - i,
        {
            let g = self.geoms[i];
            proof {
                assert(old(self).geoms@[i as int].wf());
            }
            let ng = Geom {
                pos_x: scale_coord_exec(g.base_x, zoomx),
                pos_y: scale_coord_exec(g.base_y, zoomy),
                ..g
            };
            self.geoms.set(i, ng);
            i = i + 1;
        }
        proof {
            assert forall|k: int| 0 <= k < n implies (#[trigger] self.geoms@[k]).wf() by {
                assert(old(self).geoms@[k].wf());
            }
        }
        true
    }

    /// Cancels the zoom session: every cell returns to its baseline
    /// position, exactly as it stood before the session's first preview,
    /// and the session flags reset. Without an active session only the
    /// flags are (re)cleared.
    pub fn unzoom(&mut self)
        ensures
            *final(self) == (MetaFolder {
                zoom: false,
                zoom_x: 0,
                zoom_y: 0,
                geoms: final(self).geoms,
                ..*old(self)
            }),
            old(self).zoom_x == 0 ==> final(self).geoms == old(self).geoms,
            old(self).zoom_x != 0 ==> final(self).geoms@ =~= unzoomed_geoms(old(self).geoms@),
            old(self).wf() ==> final(self).wf(),
    {
        self.zoom = false;
        if self.zoom_x == 0 {
            self.zoom_y = 0;
            return ;
        }
        self.zoom_x = 0;
        self.zoom_y = 0;
        let n = self.geoms.len();
        let mut i: usize = 0;
        while i < n
            invariant
                i <= n,
                n == self.geoms@.len(),
                *self == (MetaFolder {
                    zoom: false,
                    zoom_x: 0,
                    zoom_y: 0,
                    geoms: self.geoms,
                    ..*old(self)
                }),
                forall|k: int| i <= k < n ==> self.geoms@[k] == old(self).geoms@[k],
                forall|k: int| 0 <= k < i ==> self.geoms@[k] == unzoomed_geom(old(self).geoms@[k]),
            decreases n - i,
        {
            let g = self.geoms[i];
            let ng = Geom { pos_x: g.base_x, pos_y: g.base_y, ..g };
            self.geoms.set(i, ng);
            i = i + 1;
        }
        proof {
            if old(self).wf() {
                assert forall|k: int| 0 <= k < n implies (#[trigger] self.geoms@[k]).wf()
                    && self.geoms@[k].pos_x == self.geoms@[k].base_x && self.geoms@[k].pos_y
                    == self.geoms@[k].base_y by {
                    assert(old(self).geoms@[k].wf());
                }
            }
        }
    }

    /// Commits the zoom session: the live positions become the new absolute
    /// baseline, the session flags reset, and the given persisted layout is
    /// returned with the zoom state cleared and every cell's live position
    /// scanned into its icon map (the canvas stays at the zoomed layout;
    /// the committed coordinates are the new 100% reference).
    pub fn zoom_commit(&mut self, memo: MemoFolder) -> (r: MemoFolder)
        requires
            old(self).wf(),
        ensures
            final(self).wf(),
            *final(self) == (MetaFolder {
                zoom: false,
                zoom_x: 0,
                zoom_y: 0,
                geoms: final(self).geoms,
                ..*old(self)
            }),
            final(self).geoms@ =~= committed_geoms(old(self).geoms@),
            r == (MemoFolder { zoom: false, zoom_x: 0, zoom_y: 0, icons: r.icons, ..memo }),
            r.icons@.len() == old(self).n(),
            forall|k: int|
                0 <= k < old(self).n() ==> #[trigger] r.icons@[k] == (IconEntry {
                    name: old(self).items@[k].name,
                    icon: MemoIcon {
                        position_x: old(self).geoms@[k].pos_x,
                        position_y: old(self).geoms@[k].pos_y,
                    },
                }),
    {
        self.zoom = false;
        self.zoom_x = 0;
        self.zoom_y = 0;
        let n = self.geoms.len();
        let mut icons: Vec<IconEntry> = Vec::new();
        let mut i: usize = 0;
        while i < n
            invariant
                i <= n,
                n == self.geoms@.len(),
                n == self.items@.len(),
                *self == (MetaFolder {
                    zoom: false,
                    zoom_x: 0,
                    zoom_y: 0,
                    geoms: self.geoms,
                    ..*old(self)
                }),
                forall|k: int| i <= k < n ==> self.geoms@[k] == old(self).geoms@[k],
                forall|k: int| 0 <= k < i ==> self.geoms@[k] == committed_geom(old(self).geoms@[k]),
                icons@.len() == i,
                forall|k: int|
                    0 <= k < i ==> #[trigger] icons@[k] == (IconEntry {
                        name: old(self).items@[k].name,
                        icon: MemoIcon {
                            position_x: old(self).geoms@[k].pos_x,
                            position_y: old(self).geoms@[k].pos_y,
                        },
                    }),
            decreases n - i,
        {
            let g = self.geoms[i];
            icons.push(
                IconEntry {
                    name: self.items[i].name.clone(),
                    icon: MemoIcon { position_x: g.pos_x, position_y: g.pos_y },
                },
            );
            let ng = Geom { base_x: g.pos_x, base_y: g.pos_y, ..g };
            self.geoms.set(i, ng);
            i = i + 1;
        }
        let mut m = memo;
        m.zoom = false;
        m.zoom_x = 0;
        m.zoom_y = 0;
        m.icons = icons;
        proof {
            assert forall|k: int| 0 <= k < n implies (#[trigger] self.geoms@[k]).wf()
                && self.geoms@[k].pos_x == self.geoms@[k].base_x && self.geoms@[k].pos_y
                == self.geoms@[k].base_y by {
                assert(old(self).geoms@[k].wf());
            }
        }
        m
    }
}

/// The geometry sequence after any run of previews from a state whose live
/// positions equal their baselines, applied last target first.
pub open spec fn run_previews(gs: Seq<Geom>, targets: Seq<(int, int)>) -> Seq<Geom>
    decreases targets.len(),
{
    if targets.len() == 0 {
        gs
    } else {
        zoomed_geoms(run_previews(gs, targets.drop_last()), targets.last().0, targets.last().1)
    }
}

/// Previews never touch the baseline coordinates.
pub proof fn lemma_previews_keep_baseline(gs: Seq<Geom>, targets: Seq<(int, int)>)
    ensures
        run_previews(gs, targets).len() == gs.len(),
        forall|i: int|
            0 <= i < gs.len() ==> (#[trigger] run_previews(gs, targets)[i]).base_x
                == gs[i].base_x && run_previews(gs, targets)[i].base_y == gs[i].base_y
                && run_previews(gs, targets)[i].w == gs[i].w && run_previews(gs, targets)[i].h
                == gs[i].h,
    decreases targets.len(),
{
    if targets.len() > 0 {
        lemma_previews_keep_baseline(gs, targets.drop_last());
    }
}

/// The zoom inverse law: whatever sequence of previews ran from an unzoomed
/// state, cancelling the session puts every cell back at the position it
/// held before the first preview — exactly, not merely within a unit.
pub proof fn lemma_zoom_inverse(gs: Seq<Geom>, targets: Seq<(int, int)>)
    requires
        pos_eq_base(gs),
    ensures
        forall|i: int|
            0 <= i < gs.len() ==> (#[trigger] unzoomed_geoms(run_previews(gs, targets))[i]).pos_x
                == gs[i].pos_x && unzoomed_geoms(run_previews(gs, targets))[i].pos_y
                == gs[i].pos_y,
{
    lemma_previews_keep_baseline(gs, targets);
}

} // verus!
