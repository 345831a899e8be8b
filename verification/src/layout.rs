//! The layout engine: the five-point collision test, the shelf-packing scan
//! that places entries with no stored position, and the free-slot search
//! used when a single new entry appears while the folder is open.
//!
//! Shelf packing walks left to right: the column cursor starts at the
//! largest stored Y of any restored item, advances by a cell and a third per
//! entry, and wraps to column zero two cell heights lower when it passes the
//! desktop width.

use vstd::prelude::*;

use crate::geom::{
    clamp_coord, clamp_coord_exec, first_hit, first_hit_from, occupies, probe_points,
    scale_coord, scale_coord_exec, spec_collides, Geom, CELLS_MAX, COORD_MAX, DIM_MAX,
    WIDTH_MAX, ZOOM_MAX,
};
use crate::metafolder::{geoms_wf, unique_names, DirItem, MetaFolder};
use crate::settings::{icon_lookup, icons_lookup, IconEntry, MemoFolder, MemoIcon};

verus! {

/// A found hit means the hit cell really covers the point.
pub proof fn lemma_hit_occupies(geoms: Seq<Geom>, px: int, py: int, k: int, i: int)
    requires
        0 <= k <= geoms.len(),
        first_hit_from(geoms, px, py, k) == Some(i),
    ensures
        k <= i < geoms.len(),
        occupies(geoms[i], px, py),
    decreases geoms.len() - k,
{
    if k < geoms.len() && !occupies(geoms[k], px, py) {
        lemma_hit_occupies(geoms, px, py, k + 1, i);
    }
}

/// A collision verdict of `true` names a probe point that some cell covers.
pub proof fn lemma_collides_hits(
    names: Seq<Seq<char>>,
    geoms: Seq<Geom>,
    name: Seq<char>,
    pts: Seq<(int, int)>,
    k: int,
)
    requires
        0 <= k <= pts.len(),
        crate::geom::collides_from(names, geoms, name, pts, k),
    ensures
        exists|j: int, i: int|
            k <= j < pts.len() && 0 <= i < geoms.len() && occupies(
                geoms[i],
                pts[j].0,
                pts[j].1,
            ),
    decreases pts.len() - k,
{
    if k < pts.len() {
        match first_hit(geoms, pts[k].0, pts[k].1) {
            Some(i) => {
                lemma_hit_occupies(geoms, pts[k].0, pts[k].1, 0, i);
                assert(occupies(geoms[i], pts[k].0, pts[k].1));
            },
            None => {
                lemma_collides_hits(names, geoms, name, pts, k + 1);
            },
        }
    }
}

/// The lowest canvas line below every rendered cell: the largest
/// `pos_y + h`, or 0 with no cells.
pub open spec fn max_bottom(gs: Seq<Geom>) -> int
    decreases gs.len(),
{
    if gs.len() == 0 {
        0
    } else {
        let m = max_bottom(gs.drop_last());
        let b = gs.last().pos_y + gs.last().h;
        if b > m {
            b
        } else {
            m
        }
    }
}

/// Every cell's bottom edge lies at or above `max_bottom`.
pub proof fn lemma_max_bottom(gs: Seq<Geom>)
    ensures
        max_bottom(gs) >= 0,
        forall|i: int| 0 <= i < gs.len() ==> (#[trigger] gs[i]).pos_y + gs[i].h <= max_bottom(gs),
    decreases gs.len(),
{
    if gs.len() > 0 {
        lemma_max_bottom(gs.drop_last());
        assert(forall|i: int| 0 <= i < gs.len() - 1 ==> gs[i] == gs.drop_last()[i]);
    }
}

/// `max_bottom` never exceeds a bound that every cell's bottom edge obeys.
pub proof fn lemma_max_bottom_le(gs: Seq<Geom>, b: int)
    requires
        b >= 0,
        forall|i: int| 0 <= i < gs.len() ==> (#[trigger] gs[i]).pos_y + gs[i].h <= b,
    ensures
        max_bottom(gs) <= b,
    decreases gs.len(),
{
    if gs.len() > 0 {
        assert(forall|i: int| 0 <= i < gs.len() - 1 ==> gs.drop_last()[i] == gs[i]);
        lemma_max_bottom_le(gs.drop_last(), b);
    }
}

impl MetaFolder {
    /// One probe point's answer: `None` when the point resolves to no
    /// cell, otherwise whether the topmost cell there is another item than
    /// `name`; a self-hit, like an empty point, leaves the scan to go on.
    fn probe_point(&self, name: &String, px: i64, py: i64) -> (r: Option<bool>)
        requires
            self.wf(),
        ensures
            match first_hit(self.geoms@, px as int, py as int) {
                Some(i) => r == Some(self.names()[i] != name@),
                None => r is None,
            },
    {
        let n = self.geoms.len();
        let mut k: usize = 0;
        while k < n
            invariant
                k <= n,
                n == self.geoms@.len(),
                first_hit_from(self.geoms@, px as int, py as int, 0) == first_hit_from(
                    self.geoms@,
                    px as int,
                    py as int,
                    k as int,
                ),
            decreases n - k,
        {
            let g = self.geoms[k];
            proof {
                assert(self.geoms@[k as int].wf());
            }
            if g.pos_x <= px && px <= g.pos_x + g.w && g.pos_y <= py && py <= g.pos_y + g.h {
                proof {
                    assert(self.names()[k as int] == self.items@[k as int].name@);
                }
                return Some(!self.items[k].name.eq(name));
            }
            k = k + 1;
        }
        None
    }

    /// The five-point collision test: probes the four corners and the
    /// center of the rectangle at `(x, y)` with size `(w, h)` against the
    /// rendered cells, topmost first. A probe point whose topmost cell is
    /// another item than `name` is a collision; a hit on `name` itself
    /// (self-overlap during a drag) is ignored and the scan continues, as
    /// is a point over empty canvas.
    pub fn is_something_underneath(&self, name: &String, x: i64, y: i64, w: i64, h: i64) -> (r:
        bool)
        requires
            self.wf(),
            -(COORD_MAX as int) - 3 * DIM_MAX as int <= x <= COORD_MAX as int + 3 * DIM_MAX
                as int,
            -(COORD_MAX as int) - 3 * DIM_MAX as int <= y <= COORD_MAX as int + 3 * DIM_MAX
                as int,
            0 <= w <= DIM_MAX,
            0 <= h <= DIM_MAX,
        ensures
            r == spec_collides(
                self.names(),
                self.geoms@,
                name@,
                x as int,
                y as int,
                w as int,
                h as int,
            ),
    {
        let ghost pts = probe_points(x as int, y as int, w as int, h as int);
        proof {
            assert(self.names().len() == self.geoms@.len());
        }
        proof {
            reveal_with_fuel(crate::geom::collides_from, 7);
            assert(pts[0] == (x as int, y as int));
            assert(pts[1] == (x as int + w as int, y as int));
            assert(pts[2] == (x as int, y as int + h as int));
            assert(pts[3] == (x as int + w as int, y as int + h as int));
            assert(pts[4] == (x as int + w as int / 2, y as int + h as int / 2));
        }
        let r0 = self.probe_point(name, x, y);
        if let Some(true) = r0 {
            return true;
        }
        let r1 = self.probe_point(name, x + w, y);
        if let Some(true) = r1 {
            return true;
        }
        let r2 = self.probe_point(name, x, y + h);
        if let Some(true) = r2 {
            return true;
        }
        let r3 = self.probe_point(name, x + w, y + h);
        if let Some(true) = r3 {
            return true;
        }
        let r4 = self.probe_point(name, x + w / 2, y + h / 2);
        if let Some(true) = r4 {
            return true;
        }
        false
    }

    /// Finds an unoccupied slot for one new cell of `icon_size` square: the
    /// shelf-packing scan from the canvas origin, probing each candidate
    /// with the five-point test under the empty name, until a slot is free.
    /// The result is the first free candidate of the scan: every earlier
    /// candidate collides.
    pub fn find_free_slot(&self, icon_size: i64, desktop_width: i64) -> (r: (i64, i64))
        requires
            self.wf(),
            1 <= icon_size <= DIM_MAX,
            1 <= desktop_width <= WIDTH_MAX,
        ensures
            0 <= r.0 <= WIDTH_MAX as int + 2 * DIM_MAX as int,
            0 <= r.1 <= COORD_MAX as int + 3 * DIM_MAX as int,
            !spec_collides(
                self.names(),
                self.geoms@,
                Seq::<char>::empty(),
                r.0 as int,
                r.1 as int,
                icon_size as int,
                icon_size as int,
            ),
            exists|k: int|
                #![trigger slot_cand(desktop_width as int, icon_size as int, k)]
                0 <= k && (r.0 as int, r.1 as int) == slot_cand(
                    desktop_width as int,
                    icon_size as int,
                    k,
                ) && forall|j: int|
                    0 <= j < k ==> spec_collides(
                        self.names(),
                        self.geoms@,
                        Seq::<char>::empty(),
                        (#[trigger] slot_cand(desktop_width as int, icon_size as int, j)).0,
                        slot_cand(desktop_width as int, icon_size as int, j).1,
                        icon_size as int,
                        icon_size as int,
                    ),
    {
        let ghost mb = max_bottom(self.geoms@);
        proof {
            lemma_max_bottom(self.geoms@);
            assert forall|i: int| 0 <= i < self.geoms@.len()
                implies (#[trigger] self.geoms@[i]).pos_y + self.geoms@[i].h
                <= COORD_MAX as int + DIM_MAX as int by {
                assert(self.geoms@[i].wf());
            }
            lemma_max_bottom_le(self.geoms@, COORD_MAX as int + DIM_MAX as int);
        }
        let empty_name = String::new();
        proof {
            assert(empty_name@ =~= Seq::<char>::empty());
        }
        let mut c: i64 = 0;
        let mut r: i64 = 0;
        let ghost mut steps: int = 0;
        while self.is_something_underneath(&empty_name, c, r, icon_size, icon_size)
            invariant
                0 <= c <= desktop_width,
                0 <= r,
                r <= mb + 2 * icon_size,
                mb <= COORD_MAX as int + DIM_MAX as int,
                0 <= steps,
                (c as int, r as int) == slot_cand(desktop_width as int, icon_size as int, steps),
                forall|j: int|
                    0 <= j < steps ==> spec_collides(
                        self.names(),
                        self.geoms@,
                        Seq::<char>::empty(),
                        (#[trigger] slot_cand(desktop_width as int, icon_size as int, j)).0,
                        slot_cand(desktop_width as int, icon_size as int, j).1,
                        icon_size as int,
                        icon_size as int,
                    ),
            decreases mb + 2 * icon_size - r, desktop_width + icon_size - c,
        {
            proof {
                let pts = probe_points(c as int, r as int, icon_size as int, icon_size as int);
                lemma_collides_hits(
                    self.names(),
                    self.geoms@,
                    Seq::<char>::empty(),
                    pts,
                    0,
                );
                let (j, i) = choose|j: int, i: int|
                    0 <= j < pts.len() && 0 <= i < self.geoms@.len() && occupies(
                        self.geoms@[i],
                        pts[j].0,
                        pts[j].1,
                    );
                assert(pts[j].1 >= r as int);
                assert(self.geoms@[i].pos_y + self.geoms@[i].h <= mb);
                assert(r as int <= mb);
            }
            c = c + icon_size + icon_size / 3;
            if c > desktop_width {
                c = 0;
                r = r + 2 * icon_size;
            }
            proof {
                steps = steps + 1;
            }
        }
        proof {
            assert((c as int, r as int) == slot_cand(
                desktop_width as int,
                icon_size as int,
                steps,
            ));
        }
        (c, r)
    }
}

/// The `k`-th candidate slot of the free-slot scan: the canvas origin,
/// advanced `k` shelf steps.
pub open spec fn slot_cand(width: int, cell: int, k: int) -> (int, int)
    decreases k,
{
    if k <= 0 {
        (0, 0)
    } else {
        shelf_advance(slot_cand(width, cell, k - 1), width, cell)
    }
}

/// Whether entry `i` has a stored position in the persisted icon map.
pub open spec fn known(entries: Seq<DirItem>, icons: Seq<IconEntry>, i: int) -> bool {
    icons_lookup(icons, entries[i].name@) is Some
}

/// The stored position of entry `i`, each coordinate clamped into the
/// storable range.
pub open spec fn stored_pos(entries: Seq<DirItem>, icons: Seq<IconEntry>, i: int) -> (int, int) {
    let ic = icons_lookup(icons, entries[i].name@)->0;
    (clamp_coord(ic.position_x as int), clamp_coord(ic.position_y as int))
}

/// The largest clamped stored Y among the first `i` entries that have a
/// stored position; 0 with none.
pub open spec fn max_known_y(entries: Seq<DirItem>, icons: Seq<IconEntry>, i: int) -> int
    decreases i,
{
    if i <= 0 {
        0
    } else {
        let m = max_known_y(entries, icons, i - 1);
        if known(entries, icons, i - 1) && stored_pos(entries, icons, i - 1).1 > m {
            stored_pos(entries, icons, i - 1).1
        } else {
            m
        }
    }
}

/// One step of the shelf-packing scan: the column cursor advances by a cell
/// and a third; past the desktop width it wraps to column zero and the row
/// cursor drops by two cell heights.
pub open spec fn shelf_advance(cur: (int, int), width: int, cell: int) -> (int, int) {
    let c = cur.0 + cell + cell / 3;
    if c > width {
        (0, cur.1 + 2 * cell)
    } else {
        (c, cur.1)
    }
}

/// The shelf cursor after processing `i` entries: it starts at column
/// `max_known_y` (the largest stored Y, so fresh rows do not overlap
/// restored items), row 0, and advances once per entry. The position
/// assigned to a new entry `i` is the cursor after `i + 1` steps.
pub open spec fn shelf_cursor(
    entries: Seq<DirItem>,
    icons: Seq<IconEntry>,
    width: int,
    cell: int,
    i: int,
) -> (int, int)
    decreases i,
{
    if i <= 0 {
        (max_known_y(entries, icons, entries.len() as int), 0)
    } else {
        shelf_advance(shelf_cursor(entries, icons, width, cell, i - 1), width, cell)
    }
}

/// The position the opening scan gives entry `i`: its clamped stored
/// position when one is persisted, else the shelf slot, clamped.
pub open spec fn placed_pos(
    entries: Seq<DirItem>,
    icons: Seq<IconEntry>,
    width: int,
    cell: int,
    i: int,
) -> (int, int) {
    if known(entries, icons, i) {
        stored_pos(entries, icons, i)
    } else {
        let cur = shelf_cursor(entries, icons, width, cell, i + 1);
        (clamp_coord(cur.0), clamp_coord(cur.1))
    }
}

/// The zoom percentages a stored layout restores: the stored pair when the
/// layout has an active zoom within range, else none.
pub open spec fn sane_zoom(memo: MemoFolder) -> (int, int) {
    if memo.zoom && 1 <= memo.zoom_x <= ZOOM_MAX && 1 <= memo.zoom_y <= ZOOM_MAX {
        (memo.zoom_x as int, memo.zoom_y as int)
    } else {
        (0, 0)
    }
}

/// The geometry the opening scan gives entry `i`: the placed position is
/// the baseline, since persisted coordinates are unzoomed; with no stored
/// zoom session the cell shows there, and a restored session shows it at
/// the baseline rescaled by the stored percentages. Cells open at `cell`
/// square.
pub open spec fn built_geom(
    entries: Seq<DirItem>,
    icons: Seq<IconEntry>,
    width: int,
    cell: int,
    zx: int,
    zy: int,
    i: int,
) -> Geom {
    let p = placed_pos(entries, icons, width, cell, i);
    Geom {
        pos_x: (if zx == 0 {
            p.0
        } else {
            scale_coord(p.0, zx)
        }) as i64,
        pos_y: (if zy == 0 {
            p.1
        } else {
            scale_coord(p.1, zy)
        }) as i64,
        base_x: p.0 as i64,
        base_y: p.1 as i64,
        w: cell as i64,
        h: cell as i64,
    }
}

impl MetaFolder {
    /// Opens a folder view: restores each entry with a stored position to
    /// that coordinate as its baseline, shelf-packs the rest and marks them
    /// newly added, and restores the cosmetic overrides from the persisted
    /// layout. A stored zoom session resumes: every cell shows at its
    /// baseline rescaled by the stored percentages, as the session left it.
    pub fn build(
        path: String,
        entries: Vec<DirItem>,
        memo: &MemoFolder,
        desktop_width: i64,
        icon_size: i64,
    ) -> (r: MetaFolder)
        requires
            unique_names(entries@),
            entries@.len() <= CELLS_MAX,
            1 <= icon_size <= DIM_MAX,
            1 <= desktop_width <= WIDTH_MAX,
        ensures
            r.wf(),
            r.current_path == path,
            r.background_color == memo.background_color,
            r.drilldown == memo.drilldown,
            r.zoom_x == sane_zoom(*memo).0,
            r.zoom_y == sane_zoom(*memo).1,
            r.zoom == (r.zoom_x != 0),
            r.items == entries,
            r.geoms@.len() == entries@.len(),
            r.added@.len() == entries@.len(),
            r.found@.len() == entries@.len(),
            forall|i: int|
                0 <= i < entries@.len() ==> #[trigger] r.geoms@[i] == built_geom(
                    entries@,
                    memo.icons@,
                    desktop_width as int,
                    icon_size as int,
                    sane_zoom(*memo).0,
                    sane_zoom(*memo).1,
                    i,
                ),
            forall|i: int|
                0 <= i < entries@.len() ==> #[trigger] r.added@[i] == !known(
                    entries@,
                    memo.icons@,
                    i,
                ),
            forall|i: int| 0 <= i < entries@.len() ==> !(#[trigger] r.found@[i]),
    {
        let items = entries;
        let n = items.len();
        let (zx, zy): (i64, i64) = if memo.zoom && 1 <= memo.zoom_x && memo.zoom_x <= ZOOM_MAX && 1
            <= memo.zoom_y && memo.zoom_y <= ZOOM_MAX {
            (memo.zoom_x, memo.zoom_y)
        } else {
            (0, 0)
        };
        // Pass one: the largest stored Y among restored entries.
        let mut max_y: i64 = 0;
        let mut i: usize = 0;
        while i < n
            invariant
                i <= n,
                n == items@.len(),
                max_y == max_known_y(items@, memo.icons@, i as int),
                0 <= max_y <= COORD_MAX,
            decreases n - i,
        {
            match icon_lookup(&memo.icons, &items[i].name) {
                Some(ic) => {
                    let py = clamp_coord_exec(ic.position_y);
                    if py > max_y {
                        max_y = py;
                    }
                },
                None => {
                },
            }
            i = i + 1;
        }
        // Pass two: restore stored positions; shelf-pack the rest.
        let mut geoms: Vec<Geom> = Vec::new();
        let mut added: Vec<bool> = Vec::new();
        let mut found: Vec<bool> = Vec::new();
        let mut c: i64 = max_y;
        let mut r: i64 = 0;
        let mut i: usize = 0;
        while i < n
            invariant
                i <= n,
                n == items@.len(),
                (c as int, r as int) == shelf_cursor(
                    items@,
                    memo.icons@,
                    desktop_width as int,
                    icon_size as int,
                    i as int,
                ),
                0 <= c <= COORD_MAX,
                0 <= r,
                r <= 2 * (DIM_MAX as int) * (i as int),
                geoms@.len() == i,
                added@.len() == i,
                found@.len() == i,
                forall|k: int|
                    0 <= k < i ==> #[trigger] geoms@[k] == built_geom(
                        items@,
                        memo.icons@,
                        desktop_width as int,
                        icon_size as int,
                        zx as int,
                        zy as int,
                        k,
                    ),
                forall|k: int|
                    0 <= k < i ==> #[trigger] added@[k] == !known(items@, memo.icons@, k),
                forall|k: int| 0 <= k < i ==> !(#[trigger] found@[k]),
            decreases n - i,
        {
            c = c + icon_size + icon_size / 3;
            if c > desktop_width {
                c = 0;
                r = r + 2 * icon_size;
            }
            let (px, py, is_known): (i64, i64, bool) = match icon_lookup(
                &memo.icons,
                &items[i].name,
            ) {
                Some(ic) => (clamp_coord_exec(ic.position_x), clamp_coord_exec(ic.position_y), true),
                None => (clamp_coord_exec(c), clamp_coord_exec(r), false),
            };
            let (lx, ly): (i64, i64) = if zx == 0 {
                (px, py)
            } else {
                (scale_coord_exec(px, zx), scale_coord_exec(py, zy))
            };
            geoms.push(Geom { pos_x: lx, pos_y: ly, base_x: px, base_y: py, w: icon_size, h: icon_size });
            added.push(!is_known);
            found.push(false);
            i = i + 1;
        }
        let mf = MetaFolder {
            current_path: path,
            background_color: memo.background_color.clone(),
            drilldown: memo.drilldown,
            zoom: zx != 0,
            zoom_x: zx,
            zoom_y: zy,
            items,
            geoms,
            added,
            found,
        };
        proof {
            assert forall|k: int| 0 <= k < n implies (#[trigger] mf.geoms@[k]).wf()
                && (mf.zoom_x == 0 ==> mf.geoms@[k].pos_x == mf.geoms@[k].base_x
                && mf.geoms@[k].pos_y == mf.geoms@[k].base_y) by {
                assert(mf.geoms@[k] == built_geom(
                    mf.items@,
                    memo.icons@,
                    desktop_width as int,
                    icon_size as int,
                    zx as int,
                    zy as int,
                    k,
                ));
            }
        }
        mf
    }
}

} // verus!
