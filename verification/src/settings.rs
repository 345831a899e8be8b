//! The persisted per-folder layout: cosmetic overrides, zoom state, and the
//! map from item name to stored canvas position.
//!
//! One sidecar file per folder carries a `MemoFolder`. The map of stored
//! icon positions is kept as a vector of entries; its meaning is that of a
//! map keyed by name, where a later entry for the same name wins.

use vstd::prelude::*;
use vstd::string::StringExecFns;

verus! {

/// Stored canvas position of one icon, in canvas units.
#[derive(Clone, Copy, PartialEq, Eq, Structural, Debug)]
pub struct MemoIcon {
    pub position_x: i64,
    pub position_y: i64,
}

/// One entry of the persisted icon-position map.
#[derive(PartialEq, Eq, Debug)]
pub struct IconEntry {
    pub name: String,
    pub icon: MemoIcon,
}

/// The persisted layout of one folder.
#[derive(PartialEq, Eq, Debug)]
pub struct MemoFolder {
    pub background_color: String,
    pub font_color: String,
    pub font_size: String,
    pub font_bold: Option<bool>,
    pub cell_size: i64,
    pub drilldown: bool,
    pub zoom: bool,
    pub zoom_x: i64,
    pub zoom_y: i64,
    pub icons: Vec<IconEntry>,
}

/// The mathematical value of one icon-map entry.
#[verifier::ext_equal]
pub ghost struct IconEntryV {
    pub name: Seq<char>,
    pub x: int,
    pub y: int,
}

/// The mathematical value of a persisted layout: every field as its
/// abstract value, the icon map as a sequence of entries.
#[verifier::ext_equal]
pub ghost struct LayoutV {
    pub background_color: Seq<char>,
    pub font_color: Seq<char>,
    pub font_size: Seq<char>,
    pub font_bold: Option<bool>,
    pub cell_size: int,
    pub drilldown: bool,
    pub zoom: bool,
    pub zoom_x: int,
    pub zoom_y: int,
    pub icons: Seq<IconEntryV>,
}

impl View for IconEntry {
    type V = IconEntryV;

    open spec fn view(&self) -> IconEntryV {
        IconEntryV {
            name: self.name@,
            x: self.icon.position_x as int,
            y: self.icon.position_y as int,
        }
    }
}

impl View for MemoFolder {
    type V = LayoutV;

    open spec fn view(&self) -> LayoutV {
        LayoutV {
            background_color: self.background_color@,
            font_color: self.font_color@,
            font_size: self.font_size@,
            font_bold: self.font_bold,
            cell_size: self.cell_size as int,
            drilldown: self.drilldown,
            zoom: self.zoom,
            zoom_x: self.zoom_x as int,
            zoom_y: self.zoom_y as int,
            icons: self.icons@.map_values(|e: IconEntry| e@),
        }
    }
}

/// The stored position under `name`, taking the last entry when the map
/// holds several under one name.
pub open spec fn icons_lookup(icons: Seq<IconEntry>, name: Seq<char>) -> Option<MemoIcon>
    decreases icons.len(),
{
    if icons.len() == 0 {
        None
    } else if icons.last().name@ == name {
        Some(icons.last().icon)
    } else {
        icons_lookup(icons.drop_last(), name)
    }
}

/// The map without any entry under `name`.
pub open spec fn icons_remove(icons: Seq<IconEntry>, name: Seq<char>) -> Seq<IconEntry> {
    icons.filter(|e: IconEntry| e.name@ != name)
}

impl MemoFolder {
    /// The layout of a folder that has never been customized: the default
    /// background color, drilldown navigation on, everything else unset.
    pub fn structural_default() -> (r: MemoFolder)
        ensures
            r.background_color@ == crate::DEFAULT_BG_COLOR@,
            r.font_color@ == Seq::<char>::empty(),
            r.font_size@ == Seq::<char>::empty(),
            r.font_bold is None,
            r.cell_size == 0,
            r.drilldown,
            !r.zoom,
            r.zoom_x == 0,
            r.zoom_y == 0,
            r.icons@ =~= Seq::<IconEntry>::empty(),
    {
        MemoFolder {
            background_color: String::from_str(crate::DEFAULT_BG_COLOR),
            font_color: String::new(),
            font_size: String::new(),
            font_bold: None,
            cell_size: 0,
            drilldown: true,
            zoom: false,
            zoom_x: 0,
            zoom_y: 0,
            icons: Vec::new(),
        }
    }

    /// This layout with the zoom state replaced.
    pub fn with_zoom(self, zoom: bool, zoom_x: i64, zoom_y: i64) -> (r: MemoFolder)
        ensures
            r == (MemoFolder { zoom, zoom_x, zoom_y, ..self }),
    {
        let mut m = self;
        m.zoom = zoom;
        m.zoom_x = zoom_x;
        m.zoom_y = zoom_y;
        m
    }

    /// This layout with the drilldown flag replaced.
    pub fn with_drilldown(self, drilldown: bool) -> (r: MemoFolder)
        ensures
            r == (MemoFolder { drilldown, ..self }),
    {
        let mut m = self;
        m.drilldown = drilldown;
        m
    }

    /// This layout with the background color replaced.
    pub fn with_background_color(self, background_color: String) -> (r: MemoFolder)
        ensures
            r == (MemoFolder { background_color, ..self }),
    {
        let mut m = self;
        m.background_color = background_color;
        m
    }

    /// This layout with the cell size replaced.
    pub fn with_cell_size(self, cell_size: i64) -> (r: MemoFolder)
        ensures
            r == (MemoFolder { cell_size, ..self }),
    {
        let mut m = self;
        m.cell_size = cell_size;
        m
    }

    /// This layout with the font size replaced.
    pub fn with_font_size(self, font_size: String) -> (r: MemoFolder)
        ensures
            r == (MemoFolder { font_size, ..self }),
    {
        let mut m = self;
        m.font_size = font_size;
        m
    }

    /// This layout with the bold-font flag set.
    pub fn with_font_bold(self, bold: bool) -> (r: MemoFolder)
        ensures
            r == (MemoFolder { font_bold: Some(bold), ..self }),
    {
        let mut m = self;
        m.font_bold = Some(bold);
        m
    }

    /// This layout with the font color replaced.
    pub fn with_font_color(self, font_color: String) -> (r: MemoFolder)
        ensures
            r == (MemoFolder { font_color, ..self }),
    {
        let mut m = self;
        m.font_color = font_color;
        m
    }
}

/// The stored position under `name`, or `None` when the map holds none.
pub fn icon_lookup(icons: &Vec<IconEntry>, name: &String) -> (r: Option<MemoIcon>)
    ensures
        r == icons_lookup(icons@, name@),
{
    let mut i = icons.len();
    proof {
        assert(icons@.subrange(0, icons@.len() as int) =~= icons@);
    }
    while i > 0
        invariant
            i <= icons@.len(),
            icons_lookup(icons@.subrange(0, i as int), name@) == icons_lookup(icons@, name@),
        decreases i,
    {
        proof {
            assert(icons@.subrange(0, i as int).drop_last() =~= icons@.subrange(0, i - 1));
            assert(icons@.subrange(0, i as int).last() == icons@[i - 1]);
        }
        if icons[i - 1].name.eq(name) {
            return Some(icons[i - 1].icon);
        }
        i = i - 1;
    }
    proof {
        assert(icons@.subrange(0, 0) =~= Seq::<IconEntry>::empty());
    }
    None
}

/// The map without any entry under `name`: order of the other entries kept.
pub fn icons_remove_exec(icons: Vec<IconEntry>, name: &String) -> (r: Vec<IconEntry>)
    ensures
        r@ == icons_remove(icons@, name@),
{
    let mut out: Vec<IconEntry> = Vec::new();
    let mut i: usize = 0;
    let n = icons.len();
    let mut rest = icons;
    proof {
        assert(rest@.subrange(0, 0).filter(|e: IconEntry| e.name@ != name@) =~= Seq::<
            IconEntry,
        >::empty());
    }
    while i < n
        invariant
            i <= n,
            n == rest@.len(),
            out@ =~= rest@.subrange(0, i as int).filter(|e: IconEntry| e.name@ != name@),
        decreases n - i,
    {
        let ghost pre = rest@.subrange(0, i as int);
        let keep = !rest[i].name.eq(name);
        if keep {
            let e = IconEntry { name: rest[i].name.clone(), icon: rest[i].icon };
            out.push(e);
        }
        proof {
            assert(rest@.subrange(0, i + 1).drop_last() =~= pre);
            assert(rest@.subrange(0, i + 1).last() == rest@[i as int]);
            reveal_with_fuel(Seq::<_>::filter, 2);
            assert(rest@.subrange(0, i + 1).filter(|e: IconEntry| e.name@ != name@) =~= (
            if rest@[i as int].name@ != name@ {
                pre.filter(|e: IconEntry| e.name@ != name@).push(rest@[i as int])
            } else {
                pre.filter(|e: IconEntry| e.name@ != name@)
            }));
        }
        i = i + 1;
    }
    proof {
        assert(rest@.subrange(0, n as int) =~= rest@);
    }
    out
}

/// The map with any entries under `name` removed and one entry for `name`
/// at the given position appended.
pub fn icons_insert(icons: Vec<IconEntry>, name: String, icon: MemoIcon) -> (r: Vec<IconEntry>)
    ensures
        r@ == icons_remove(icons@, name@).push(IconEntry { name, icon }),
        icons_lookup(r@, name@) == Some(icon),
    {
        let ghost gname = name@;
        let mut out = icons_remove_exec(icons, &name);
        let e = IconEntry { name, icon };
        out.push(e);
        proof {
            assert(out@.drop_last() =~= icons_remove(icons@, gname));
        }
        out
    }

} // verus!
