//! The reconciliation engine: consumes the typed filesystem change events
//! for the open folder and keeps the registry and the persisted icon map in
//! step, without losing user-placed positions.
//!
//! Handlers are idempotent against duplicate or racing events: deleting an
//! absent cell, renaming from an absent name, or re-creating a present one
//! changes nothing and is reported, never fatal.

use vstd::prelude::*;

use crate::geom::{
    clamp_coord, clamp_coord_exec, spec_collides, unscale_coord, unscale_coord_exec, Geom,
    CELLS_MAX, COORD_MAX, DIM_MAX, WIDTH_MAX,
};
use crate::dragdrop::idx_of;
use crate::layout::slot_cand;
use crate::metafolder::{unique_names, DirItem, MetaFolder};
use crate::settings::{icon_lookup, icons_lookup, icons_remove, IconEntry, MemoFolder, MemoIcon};

verus! {

/// One filesystem change event for the open folder. Events for the sidecar
/// file itself are filtered out before they reach the engine.
pub enum FsEvent {
    /// A new entry appeared; its metadata was already queried.
    Created(DirItem),
    /// An entry disappeared.
    Deleted(String),
    /// An entry changed name, keeping its place.
    Renamed(String, String),
    /// A same-directory move some platforms signal separately from a
    /// rename: informational, no state change.
    Moved(String),
    /// An entry moved into the folder; its metadata was already queried.
    MovedIn(DirItem),
    /// An entry moved out of the folder.
    MovedOut(String),
    /// Any event kind the engine does not recognize: no state change.
    Other,
}

/// What removing the cell called `name` leaves behind: the registry without
/// it (unchanged when absent), and the layout without its icon entry.
pub open spec fn delete_post(
    pre: MetaFolder,
    post: MetaFolder,
    name: Seq<char>,
    memo: MemoFolder,
    found: bool,
    out: MemoFolder,
) -> bool {
    &&& found == pre.has_name(name)
    &&& out == (MemoFolder { icons: out.icons, ..memo })
    &&& out.icons@ == icons_remove(memo.icons@, name)
    &&& if found {
        let i = idx_of(pre.items@, name);
        &&& post == (MetaFolder {
            items: post.items,
            geoms: post.geoms,
            added: post.added,
            found: post.found,
            ..pre
        })
        &&& post.items@ == pre.items@.remove(i)
        &&& post.geoms@ == pre.geoms@.remove(i)
        &&& post.added@ == pre.added@.remove(i)
        &&& post.found@ == pre.found@.remove(i)
    } else {
        post == pre
    }
}

/// What renaming `old_name` to `new_name` leaves behind: the registry entry
/// keeps its position, size and flags under the new name, and the stored
/// icon entry migrates to the new key. A rename from an absent name, or
/// onto a name another cell already holds, changes nothing.
pub open spec fn rename_post(
    pre: MetaFolder,
    post: MetaFolder,
    old_name: Seq<char>,
    new_name: String,
    memo: MemoFolder,
    ok: bool,
    out: MemoFolder,
) -> bool {
    let renameable = pre.has_name(old_name) && (new_name@ == old_name || !pre.has_name(
        new_name@,
    ));
    &&& ok == renameable
    &&& if !renameable {
        post == pre && out == memo
    } else {
        let i = idx_of(pre.items@, old_name);
        &&& post == (MetaFolder { items: post.items, ..pre })
        &&& post.items@ == pre.items@.update(
            i,
            DirItem {
                name: new_name,
                is_dir: pre.items@[i].is_dir,
                mime_type: pre.items@[i].mime_type,
            },
        )
        &&& out == (MemoFolder { icons: out.icons, ..memo })
        &&& out.icons@ == (match icons_lookup(memo.icons@, old_name) {
            Some(p) => icons_remove(icons_remove(memo.icons@, old_name), new_name@).push(
                IconEntry { name: new_name, icon: p },
            ),
            None => memo.icons@,
        })
    }
}

/// What a newly detected entry leaves behind: the cell appended at the
/// first free slot of the shelf scan — every earlier candidate collides —
/// flagged newly added, and its position persisted at once so a later full
/// rescan has one. A duplicate of a present name, or a full registry,
/// changes nothing.
pub open spec fn create_post(
    pre: MetaFolder,
    post: MetaFolder,
    item: DirItem,
    cell: int,
    width: int,
    memo: MemoFolder,
    ok: bool,
    out: MemoFolder,
) -> bool {
    &&& ok == (!pre.has_name(item.name@) && pre.n() < CELLS_MAX as int)
    &&& if !ok {
        post == pre && out == memo
    } else {
        &&& post == (MetaFolder {
            items: post.items,
            geoms: post.geoms,
            added: post.added,
            found: post.found,
            ..pre
        })
        &&& post.items@ == pre.items@.push(item)
        &&& post.added@ == pre.added@.push(true)
        &&& post.found@ == pre.found@.push(false)
        &&& out == (MemoFolder { icons: out.icons, ..memo })
        &&& exists|k: int|
            #![trigger slot_cand(width, cell, k)]
            {
                let s = slot_cand(width, cell, k);
                let px = clamp_coord(s.0);
                let py = clamp_coord(s.1);
                &&& 0 <= k
                &&& !spec_collides(
                    pre.names(),
                    pre.geoms@,
                    Seq::<char>::empty(),
                    s.0,
                    s.1,
                    cell,
                    cell,
                )
                &&& forall|j: int|
                    0 <= j < k ==> spec_collides(
                        pre.names(),
                        pre.geoms@,
                        Seq::<char>::empty(),
                        (#[trigger] slot_cand(width, cell, j)).0,
                        slot_cand(width, cell, j).1,
                        cell,
                        cell,
                    )
                &&& post.geoms@ == pre.geoms@.push(
                    Geom {
                        pos_x: px as i64,
                        pos_y: py as i64,
                        base_x: (if pre.zoom_x == 0 {
                            px
                        } else {
                            unscale_coord(px, pre.zoom_x as int)
                        }) as i64,
                        base_y: (if pre.zoom_y == 0 {
                            py
                        } else {
                            unscale_coord(py, pre.zoom_y as int)
                        }) as i64,
                        w: cell as i64,
                        h: cell as i64,
                    },
                )
                &&& out.icons@ == icons_remove(memo.icons@, item.name@).push(
                    IconEntry {
                        name: item.name,
                        icon: MemoIcon { position_x: px as i64, position_y: py as i64 },
                    },
                )
            }
    }
}

impl MetaFolder {
    /// Removes the cell called `name` from the registry and its entry from
    /// the persisted icon map. An absent cell is reported with `false` and
    /// removes nothing from the registry; the icon map is cleaned either
    /// way, as a save follows regardless.
    pub fn delete_cell(&mut self, name: &String, memo: MemoFolder) -> (r: (bool, MemoFolder))
        requires
            old(self).wf(),
        ensures
            final(self).wf(),
            delete_post(*old(self), *final(self), name@, memo, r.0, r.1),
    {
        let mut m = memo;
        m.icons = crate::settings::icons_remove_exec(m.icons, name);
        let idx = match self.index_of(name) {
            Some(i) => i,
            None => {
                return (false, m);
            },
        };
        proof {
            lemma_idx_of_unique(self.items@, name@, idx as int);
        }
        self.items.remove(idx);
        self.geoms.remove(idx);
        self.added.remove(idx);
        self.found.remove(idx);
        proof {
            lemma_remove_keeps_unique(old(self).items@, idx as int);
            assert forall|k: int| 0 <= k < self.geoms@.len() implies (
            #[trigger] self.geoms@[k]).wf() && (self.zoom_x == 0 ==> self.geoms@[k].pos_x
                == self.geoms@[k].base_x && self.geoms@[k].pos_y == self.geoms@[k].base_y) by {
                let j = if k < idx as int {
                    k
                } else {
                    k + 1
                };
                assert(self.geoms@[k] == old(self).geoms@[j]);
                assert(old(self).geoms@[j].wf());
            }
        }
        (true, m)
    }

    /// Moves the registry entry for `old_name` to `new_name` in place: the
    /// cell keeps its position, size, and newly-added flag, and the stored
    /// icon entry migrates to the new key. A rename from an absent name
    /// changes nothing, as does one onto a name another cell holds; an
    /// absent icon entry is left alone while the cell is still renamed.
    pub fn rename_cell(&mut self, old_name: &String, new_name: String, memo: MemoFolder) -> (r: (
        bool,
        MemoFolder,
    ))
        requires
            old(self).wf(),
        ensures
            final(self).wf(),
            rename_post(*old(self), *final(self), old_name@, new_name, memo, r.0, r.1),
    {
        let idx = match self.index_of(old_name) {
            Some(i) => i,
            None => {
                return (false, memo);
            },
        };
        if !new_name.eq(old_name) {
            match self.index_of(&new_name) {
                Some(_) => {
                    return (false, memo);
                },
                None => {
                },
            }
        }
        proof {
            lemma_idx_of_unique(self.items@, old_name@, idx as int);
        }
        let it = self.items.remove(idx);
        let renamed = DirItem { name: new_name.clone(), is_dir: it.is_dir, mime_type: it.mime_type };
        self.items.insert(idx, renamed);
        proof {
            assert(self.items@ =~= old(self).items@.update(
                idx as int,
                DirItem {
                    name: new_name,
                    is_dir: old(self).items@[idx as int].is_dir,
                    mime_type: old(self).items@[idx as int].mime_type,
                },
            ));
            assert forall|a: int, b: int|
                0 <= a < b < self.items@.len() implies (#[trigger] self.items@[a]).name@ != (
            #[trigger] self.items@[b]).name@ by {
                if a != idx as int && b != idx as int {
                    assert(old(self).items@[a].name@ != old(self).items@[b].name@);
                } else if a == idx as int {
                    assert(self.items@[a].name@ == new_name@);
                    assert(self.items@[b].name@ == old(self).items@[b].name@);
                    if new_name@ == old_name@ {
                        assert(old(self).items@[b].name@ != old(self).items@[idx as int].name@);
                    } else {
                        assert(old(self).name_at(b) != new_name@);
                    }
                } else {
                    assert(self.items@[b].name@ == new_name@);
                    assert(self.items@[a].name@ == old(self).items@[a].name@);
                    if new_name@ == old_name@ {
                        assert(old(self).items@[a].name@ != old(self).items@[idx as int].name@);
                    } else {
                        assert(old(self).name_at(a) != new_name@);
                    }
                }
            }
        }
        let mut m = memo;
        match icon_lookup(&m.icons, old_name) {
            Some(p) => {
                let cleaned = crate::settings::icons_remove_exec(m.icons, old_name);
                let cleaned2 = crate::settings::icons_remove_exec(cleaned, &new_name);
                let mut icons = cleaned2;
                icons.push(IconEntry { name: new_name, icon: p });
                m.icons = icons;
            },
            None => {
            },
        }
        (true, m)
    }

    /// Places one newly detected entry: finds a free shelf slot, inserts the
    /// cell there flagged newly added, and records the position in the
    /// persisted icon map at once. A name already on the canvas, or a full
    /// registry, is reported with `false` and changes nothing.
    pub fn create_cell(
        &mut self,
        item: DirItem,
        icon_size: i64,
        desktop_width: i64,
        memo: MemoFolder,
    ) -> (r: (bool, MemoFolder))
        requires
            old(self).wf(),
            1 <= icon_size <= DIM_MAX,
            1 <= desktop_width <= WIDTH_MAX,
        ensures
            final(self).wf(),
            create_post(
                *old(self),
                *final(self),
                item,
                icon_size as int,
                desktop_width as int,
                memo,
                r.0,
                r.1,
            ),
    {
        match self.index_of(&item.name) {
            Some(_) => {
                return (false, memo);
            },
            None => {
            },
        }
        if self.items.len() >= CELLS_MAX {
            return (false, memo);
        }
        let (sx, sy) = self.find_free_slot(icon_size, desktop_width);
        let px = clamp_coord_exec(sx);
        let py = clamp_coord_exec(sy);
        let (bx, by): (i64, i64) = if self.zoom_x == 0 {
            (px, py)
        } else {
            (unscale_coord_exec(px, self.zoom_x), unscale_coord_exec(py, self.zoom_y))
        };
        let ghost pre = *self;
        let mut m = memo;
        m.icons = crate::settings::icons_insert(
            m.icons,
            item.name.clone(),
            MemoIcon { position_x: px, position_y: py },
        );
        let ghost itemg = item;
        self.items.push(item);
        self.geoms.push(
            Geom { pos_x: px, pos_y: py, base_x: bx, base_y: by, w: icon_size, h: icon_size },
        );
        self.added.push(true);
        self.found.push(false);
        proof {
            let n0 = pre.items@.len() as int;
            assert forall|a: int, b: int|
                0 <= a < b < self.items@.len() implies (#[trigger] self.items@[a]).name@ != (
            #[trigger] self.items@[b]).name@ by {
                if b < n0 {
                    assert(pre.items@[a].name@ != pre.items@[b].name@);
                } else {
                    assert(self.items@[b].name@ == itemg.name@);
                    assert(!pre.has_name(itemg.name@));
                    assert(pre.name_at(a) != itemg.name@);
                }
            }
            assert forall|k: int| 0 <= k < self.geoms@.len() implies (
            #[trigger] self.geoms@[k]).wf() && (self.zoom_x == 0 ==> self.geoms@[k].pos_x
                == self.geoms@[k].base_x && self.geoms@[k].pos_y == self.geoms@[k].base_y) by {
                if k < n0 {
                    assert(self.geoms@[k] == pre.geoms@[k]);
                    assert(pre.geoms@[k].wf());
                }
            }
            let wd = desktop_width as int;
            let cl = icon_size as int;
            let k0 = choose|k: int|
                #![trigger slot_cand(wd, cl, k)]
                0 <= k && (sx as int, sy as int) == slot_cand(wd, cl, k) && forall|j: int|
                    0 <= j < k ==> spec_collides(
                        pre.names(),
                        pre.geoms@,
                        Seq::<char>::empty(),
                        (#[trigger] slot_cand(wd, cl, j)).0,
                        slot_cand(wd, cl, j).1,
                        cl,
                        cl,
                    );
            assert((sx as int, sy as int) == slot_cand(wd, cl, k0));
            assert(create_post(
                pre,
                *self,
                itemg,
                icon_size as int,
                desktop_width as int,
                memo,
                true,
                m,
            )) by {
                assert(0 <= k0 && !spec_collides(
                    pre.names(),
                    pre.geoms@,
                    Seq::<char>::empty(),
                    slot_cand(wd, cl, k0).0,
                    slot_cand(wd, cl, k0).1,
                    icon_size as int,
                    icon_size as int,
                ) && self.geoms@ == pre.geoms@.push(
                    Geom {
                        pos_x: clamp_coord(sx as int) as i64,
                        pos_y: clamp_coord(sy as int) as i64,
                        base_x: (if pre.zoom_x == 0 {
                            clamp_coord(sx as int)
                        } else {
                            unscale_coord(clamp_coord(sx as int), pre.zoom_x as int)
                        }) as i64,
                        base_y: (if pre.zoom_y == 0 {
                            clamp_coord(sy as int)
                        } else {
                            unscale_coord(clamp_coord(sy as int), pre.zoom_y as int)
                        }) as i64,
                        w: icon_size,
                        h: icon_size,
                    },
                ) && m.icons@ == icons_remove(memo.icons@, itemg.name@).push(
                    IconEntry {
                        name: itemg.name,
                        icon: MemoIcon {
                            position_x: clamp_coord(sx as int) as i64,
                            position_y: clamp_coord(sy as int) as i64,
                        },
                    },
                ));
            }
        }
        (true, m)
    }

    /// Consumes one filesystem change event: removes, renames, or places
    /// the cell it names, and returns whether the returned layout must be
    /// saved. Same-directory moves and unrecognized events change nothing.
    pub fn apply_event(
        &mut self,
        ev: FsEvent,
        icon_size: i64,
        desktop_width: i64,
        memo: MemoFolder,
    ) -> (r: (bool, MemoFolder))
        requires
            old(self).wf(),
            1 <= icon_size <= DIM_MAX,
            1 <= desktop_width <= WIDTH_MAX,
        ensures
            final(self).wf(),
            match ev {
                FsEvent::Created(item) => r.0 && create_post(
                    *old(self),
                    *final(self),
                    item,
                    icon_size as int,
                    desktop_width as int,
                    memo,
                    !old(self).has_name(item.name@) && old(self).n() < CELLS_MAX as int,
                    r.1,
                ),
                FsEvent::MovedIn(item) => r.0 && create_post(
                    *old(self),
                    *final(self),
                    item,
                    icon_size as int,
                    desktop_width as int,
                    memo,
                    !old(self).has_name(item.name@) && old(self).n() < CELLS_MAX as int,
                    r.1,
                ),
                FsEvent::Deleted(name) => r.0 && delete_post(
                    *old(self),
                    *final(self),
                    name@,
                    memo,
                    old(self).has_name(name@),
                    r.1,
                ),
                FsEvent::MovedOut(name) => r.0 && delete_post(
                    *old(self),
                    *final(self),
                    name@,
                    memo,
                    old(self).has_name(name@),
                    r.1,
                ),
                FsEvent::Renamed(o, nn) => r.0 && rename_post(
                    *old(self),
                    *final(self),
                    o@,
                    nn,
                    memo,
                    old(self).has_name(o@) && (nn@ == o@ || !old(self).has_name(nn@)),
                    r.1,
                ),
                FsEvent::Moved(_) => !r.0 && *final(self) == *old(self) && r.1 == memo,
                FsEvent::Other => !r.0 && *final(self) == *old(self) && r.1 == memo,
            },
    {
        match ev {
            FsEvent::Created(item) => {
                let (_placed, m) = self.create_cell(item, icon_size, desktop_width, memo);
                (true, m)
            },
            FsEvent::MovedIn(item) => {
                let (_placed, m) = self.create_cell(item, icon_size, desktop_width, memo);
                (true, m)
            },
            FsEvent::Deleted(name) => {
                let (_found, m) = self.delete_cell(&name, memo);
                (true, m)
            },
            FsEvent::MovedOut(name) => {
                let (_found, m) = self.delete_cell(&name, memo);
                (true, m)
            },
            FsEvent::Renamed(o, nn) => {
                let (_ok, m) = self.rename_cell(&o, nn, memo);
                (true, m)
            },
            FsEvent::Moved(_) => (false, memo),
            FsEvent::Other => (false, memo),
        }
    }
}

/// Rename preserves position: after a rename of a deliberately placed cell,
/// a position scan under any unrelated drop yields, under the new name, the
/// exact coordinate the cell held under the old name before the rename.
pub proof fn lemma_rename_preserves_position(
    pre: MetaFolder,
    post: MetaFolder,
    old_name: Seq<char>,
    new_name: String,
    memo: MemoFolder,
    out: MemoFolder,
    dropped: Seq<char>,
    x: int,
    y: int,
)
    requires
        pre.wf(),
        rename_post(pre, post, old_name, new_name, memo, true, out),
        !pre.added@[idx_of(pre.items@, old_name)],
        new_name@ != dropped,
    ensures
        exists|k: int|
            0 <= k < crate::dragdrop::scan_icons(
                post.items@,
                post.geoms@,
                post.added@,
                dropped,
                x,
                y,
            ).len() && #[trigger] crate::dragdrop::scan_icons(
                post.items@,
                post.geoms@,
                post.added@,
                dropped,
                x,
                y,
            )[k] == (IconEntry {
                name: new_name,
                icon: MemoIcon {
                    position_x: pre.geoms@[idx_of(pre.items@, old_name)].pos_x,
                    position_y: pre.geoms@[idx_of(pre.items@, old_name)].pos_y,
                },
            }),
{
    let i = idx_of(pre.items@, old_name);
    assert(pre.has_name(old_name));
    assert(0 <= i < pre.items@.len() && pre.items@[i].name@ == old_name);
    crate::dragdrop::lemma_scan_has_cell(
        post.items@,
        post.geoms@,
        post.added@,
        dropped,
        x,
        y,
        i,
    );
    assert(post.items@[i].name == new_name);
    assert(post.geoms@[i] == pre.geoms@[i]);
}

/// `idx_of` picks exactly the index a found name sits at, names unique.
pub proof fn lemma_idx_of_unique(items: Seq<DirItem>, name: Seq<char>, i: int)
    requires
        unique_names(items),
        0 <= i < items.len(),
        items[i].name@ == name,
    ensures
        idx_of(items, name) == i,
{
    let j = idx_of(items, name);
    assert(0 <= j < items.len() && items[j].name@ == name);
    if j != i {
        if j < i {
            assert(items[j].name@ != items[i].name@);
        } else {
            assert(items[i].name@ != items[j].name@);
        }
    }
}

/// Removing an entry keeps the remaining names unique.
pub proof fn lemma_remove_keeps_unique(items: Seq<DirItem>, i: int)
    requires
        unique_names(items),
        0 <= i < items.len(),
    ensures
        unique_names(items.remove(i)),
{
    let s = items.remove(i);
    assert forall|a: int, b: int| 0 <= a < b < s.len() implies (#[trigger] s[a]).name@ != (
    #[trigger] s[b]).name@ by {
        let a0 = if a < i {
            a
        } else {
            a + 1
        };
        let b0 = if b < i {
            b
        } else {
            b + 1
        };
        assert(s[a] == items[a0]);
        assert(s[b] == items[b0]);
        assert(items[a0].name@ != items[b0].name@);
    }
}

} // verus!
