//! The folder-view state: the registry of canvas items for one open folder,
//! its cosmetic overrides, and the zoom session flags.
//!
//! The registry is kept as parallel vectors: the directory entries, their
//! geometry, and the transient per-item flags. Registry order stands for
//! stacking order, topmost first. Names are unique within one folder.

use vstd::prelude::*;
use vstd::pervasive::VecAdditionalExecFns;

use crate::geom::{Geom, CELLS_MAX, ZOOM_MAX};

verus! {

/// One directory entry as the rendering collaborator reports it.
#[derive(PartialEq, Eq, Debug)]
pub struct DirItem {
    pub name: String,
    pub is_dir: bool,
    pub mime_type: String,
}

/// The state of one open folder view.
pub struct MetaFolder {
    pub current_path: String,
    pub background_color: String,
    pub drilldown: bool,
    pub zoom: bool,
    pub zoom_x: i64,
    pub zoom_y: i64,
    pub items: Vec<DirItem>,
    pub geoms: Vec<Geom>,
    pub added: Vec<bool>,
    pub found: Vec<bool>,
}

impl MetaFolder {
    /// Number of cells on the canvas.
    pub open spec fn n(self) -> int {
        self.items@.len() as int
    }

    /// Display name of the cell at registry index `i`.
    pub open spec fn name_at(self, i: int) -> Seq<char> {
        self.items@[i].name@
    }

    /// The registry names, in stacking order.
    pub open spec fn names(self) -> Seq<Seq<char>> {
        self.items@.map(|i: int, it: DirItem| it.name@)
    }

    /// Whether some cell carries `name`.
    pub open spec fn has_name(self, name: Seq<char>) -> bool {
        exists|i: int| 0 <= i < self.n() && self.name_at(i) == name
    }

    /// Well-formedness: parallel vectors of one length, unique names,
    /// stored geometry in bounds, and consistent zoom-session flags. While
    /// no zoom session is active every live position equals its baseline.
    pub open spec fn wf(self) -> bool {
        &&& self.geoms@.len() == self.n()
        &&& self.added@.len() == self.n()
        &&& self.found@.len() == self.n()
        &&& self.n() <= CELLS_MAX as int
        &&& unique_names(self.items@)
        &&& geoms_wf(self.geoms@)
        &&& 0 <= self.zoom_x <= ZOOM_MAX
        &&& 0 <= self.zoom_y <= ZOOM_MAX
        &&& (self.zoom_x == 0 <==> self.zoom_y == 0)
        &&& self.zoom == (self.zoom_x != 0)
        &&& (self.zoom_x == 0 ==> pos_eq_base(self.geoms@))
    }

    /// Registry index of the cell called `name`, if present.
    pub fn index_of(&self, name: &String) -> (r: Option<usize>)
        ensures
            match r {
                Some(i) => 0 <= i < self.n() && self.name_at(i as int) == name@,
                None => !self.has_name(name@),
            },
    {
        let mut i: usize = 0;
        let n = self.items.len();
        while i < n
            invariant
                i <= n,
                n == self.n(),
                forall|k: int| 0 <= k < i ==> self.name_at(k) != name@,
            decreases n - i,
        {
            if self.items[i].name.eq(name) {
                return Some(i);
            }
            i = i + 1;
        }
        None
    }

    /// The open folder's absolute path.
    pub fn get_current_path(&self) -> (r: String)
        ensures
            r@ == self.current_path@,
    {
        self.current_path.clone()
    }

    /// The folder's background color override.
    pub fn get_background_color(&self) -> (r: String)
        ensures
            r@ == self.background_color@,
    {
        self.background_color.clone()
    }

    /// Whether double-activating a directory cell drills down in place.
    pub fn get_drilldown(&self) -> (r: bool)
        ensures
            r == self.drilldown,
    {
        self.drilldown
    }

    /// The zoom session state: active flag and the two percentages.
    pub fn get_zoom_state(&self) -> (r: (bool, i64, i64))
        ensures
            r == (self.zoom, self.zoom_x, self.zoom_y),
    {
        (self.zoom, self.zoom_x, self.zoom_y)
    }

    /// Number of cells on the canvas.
    pub fn cell_count(&self) -> (r: usize)
        ensures
            r == self.n(),
    {
        self.items.len()
    }

    /// Live canvas position of the cell called `name`.
    pub fn get_cell_position(&self, name: &String) -> (r: Option<(i64, i64)>)
        requires
            self.wf(),
        ensures
            match r {
                Some(p) => exists|i: int|
                    0 <= i < self.n() && self.name_at(i) == name@
                        && p == ((#[trigger] self.geoms@[i]).pos_x, self.geoms@[i].pos_y),
                None => !self.has_name(name@),
            },
    {
        match self.index_of(name) {
            Some(i) => Some((self.geoms[i].pos_x, self.geoms[i].pos_y)),
            None => None,
        }
    }

    /// Rendered size of the cell called `name`.
    pub fn get_cell_size(&self, name: &String) -> (r: Option<(i64, i64)>)
        requires
            self.wf(),
        ensures
            match r {
                Some(p) => exists|i: int|
                    0 <= i < self.n() && self.name_at(i) == name@
                        && p == ((#[trigger] self.geoms@[i]).w, self.geoms@[i].h),
                None => !self.has_name(name@),
            },
    {
        match self.index_of(name) {
            Some(i) => Some((self.geoms[i].w, self.geoms[i].h)),
            None => None,
        }
    }

    /// Whether the cell called `name` was detected after the folder opened
    /// and has not yet been deliberately placed by the user.
    pub fn is_cell_newly_added(&self, name: &String) -> (r: bool)
        requires
            self.wf(),
        ensures
            r == exists|i: int|
                0 <= i < self.n() && self.name_at(i) == name@ && #[trigger] self.added@[i],
    {
        match self.index_of(name) {
            Some(i) => self.added[i],
            None => false,
        }
    }

    /// Records the rendered size of the cell called `name`, as the
    /// rendering collaborator reports it; the collision probe tests
    /// against these bounds.
    pub fn set_cell_bounds(&mut self, name: &String, w: i64, h: i64) -> (found: bool)
        requires
            old(self).wf(),
            0 <= w <= crate::geom::DIM_MAX,
            0 <= h <= crate::geom::DIM_MAX,
        ensures
            final(self).wf(),
            found == old(self).has_name(name@),
            !found ==> *final(self) == *old(self),
            found ==> ({
                let i = crate::dragdrop::idx_of(old(self).items@, name@);
                &&& *final(self) == (MetaFolder { geoms: final(self).geoms, ..*old(self) })
                &&& final(self).geoms@ =~= old(self).geoms@.update(
                    i,
                    Geom { w, h, ..old(self).geoms@[i] },
                )
            }),
    {
        let idx = match self.index_of(name) {
            Some(i) => i,
            None => {
                return false;
            },
        };
        proof {
            crate::reconcile::lemma_idx_of_unique(self.items@, name@, idx as int);
        }
        let g = self.geoms[idx];
        self.geoms.set(idx, Geom { w, h, ..g });
        proof {
            assert forall|k: int| 0 <= k < self.geoms@.len() implies (
            #[trigger] self.geoms@[k]).wf() && (self.zoom_x == 0 ==> self.geoms@[k].pos_x
                == self.geoms@[k].base_x && self.geoms@[k].pos_y == self.geoms@[k].base_y) by {
                if k != idx as int {
                    assert(self.geoms@[k] == old(self).geoms@[k]);
                }
                assert(old(self).geoms@[k].wf());
            }
        }
        true
    }

    /// Clears the newly-added flag of the cell called `name`: the user has
    /// now deliberately placed it.
    pub fn clear_added_flag(&mut self, name: &String)
        requires
            old(self).wf(),
        ensures
            final(self).wf(),
            final(self).items == old(self).items,
            final(self).geoms == old(self).geoms,
            final(self).found == old(self).found,
            final(self).current_path == old(self).current_path,
            final(self).background_color == old(self).background_color,
            final(self).drilldown == old(self).drilldown,
            final(self).zoom == old(self).zoom,
            final(self).zoom_x == old(self).zoom_x,
            final(self).zoom_y == old(self).zoom_y,
            final(self).added@.len() == old(self).added@.len(),
            forall|i: int|
                0 <= i < old(self).n() ==> final(self).added@[i] == (
                if old(self).name_at(i) == name@ {
                    false
                } else {
                    old(self).added@[i]
                }),
    {
        let idx = self.index_of(name);
        match idx {
            Some(i) => {
                self.added.set(i, false);
                proof {
                    assert forall|k: int| 0 <= k < self.n() && k != i implies self.name_at(
                        k,
                    ) != name@ by {
                        if k < i as int {
                            assert(self.items@[k].name@ != self.items@[i as int].name@);
                        } else {
                            assert(self.items@[i as int].name@ != self.items@[k].name@);
                        }
                    }
                }
            },
            None => {
            },
        }
    }
}

/// Whether every stored geometry is within bounds.
pub open spec fn geoms_wf(gs: Seq<Geom>) -> bool {
    forall|i: int| 0 <= i < gs.len() ==> (#[trigger] gs[i]).wf()
}

/// Whether every live position equals its unzoomed baseline.
pub open spec fn pos_eq_base(gs: Seq<Geom>) -> bool {
    forall|i: int|
        0 <= i < gs.len() ==> (#[trigger] gs[i]).pos_x == gs[i].base_x && gs[i].pos_y
            == gs[i].base_y
}

/// Whether all entry names are distinct.
pub open spec fn unique_names(entries: Seq<DirItem>) -> bool {
    forall|i: int, j: int|
        0 <= i < j < entries.len() ==> (#[trigger] entries[i]).name@ != (#[trigger] entries[j]).name@
}

} // verus!
