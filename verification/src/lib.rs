//! Per-directory spatial desktop view: a folder-view state manager.
//!
//! Each filesystem folder can be shown as a free-form canvas of icon cells.
//! This crate holds the state manager for one open folder: it maps directory
//! entries to positioned canvas items, persists the layout and its cosmetic
//! overrides to a sidecar file, reconciles filesystem change events against
//! the in-memory registry, runs a reversible zoom transform over all item
//! coordinates, and resolves drag-and-drop placement conflicts.
//!
//! Reading and writing the sidecar file, rendering, and input handling are
//! left to the surrounding program; everything here works on plain values.

#![verifier::loop_isolation(false)]

use vstd::prelude::*;

mod codec;
mod dragdrop;
mod geom;

pub use codec::to_json;
pub use codec::json_of;
pub use codec::json_str;
pub use codec::escape_str;
pub use codec::dec_i64;
pub use codec::dec_u64;
pub use codec::icons_json;
pub use codec::icons_body;
pub use codec::entry_json;
mod reconcile;

pub use reconcile::FsEvent;
pub use reconcile::create_post;
pub use reconcile::delete_post;
pub use reconcile::lemma_idx_of_unique;
pub use reconcile::lemma_remove_keeps_unique;
pub use reconcile::rename_post;
mod layout;

pub use dragdrop::DropPrep;
pub use dragdrop::idx_of;
pub use dragdrop::lemma_drop_onto_occupied_collides;
pub use dragdrop::lemma_newly_added_excluded;
pub use dragdrop::lemma_scan_names_from_items;
pub use dragdrop::scan_icons;
mod metafolder;

pub use layout::built_geom;
pub use layout::known;
pub use layout::lemma_collides_hits;
pub use layout::lemma_hit_occupies;
pub use layout::lemma_max_bottom;
pub use layout::max_bottom;
pub use layout::max_known_y;
pub use layout::placed_pos;
pub use layout::sane_zoom;
pub use layout::shelf_advance;
pub use layout::shelf_cursor;
pub use layout::slot_cand;
pub use layout::stored_pos;
mod parse;
mod paths;
mod color;
mod roundtrip;
mod viewops;

pub use color::digit_runs;
pub use color::hex_u16;
pub use color::rgba_hex_of;
pub use color::rgba_to_hex;
pub use roundtrip::ext_val;
pub use roundtrip::lemma_save_load_round_trip;
pub use viewops::DragPayload;
pub use viewops::cell_matches;
pub use viewops::contains_seq;
pub use viewops::count_matches;
pub use viewops::lower_of;
pub use viewops::snap5;
mod settings;

pub use parse::ParseError;
pub use parse::chars_of;
pub use parse::chars_to_string;
pub use parse::default_layout_v;
pub use parse::from_json;
pub use parse::parse_layout;
pub use parse::parse_fields;
pub use parse::parse_icons;
pub use parse::parse_entries;
pub use parse::parse_icon;
pub use parse::parse_string;
pub use parse::parse_int;
pub use parse::parse_bool;
pub use parse::skip_ws;
mod zoom;

pub use zoom::committed_geom;
pub use zoom::committed_geoms;
pub use zoom::lemma_previews_keep_baseline;
pub use zoom::lemma_zoom_inverse;
pub use zoom::run_previews;
pub use zoom::unzoomed_geom;
pub use zoom::unzoomed_geoms;
pub use zoom::zoomed_geom;
pub use zoom::zoomed_geoms;

pub use metafolder::DirItem;
pub use metafolder::MetaFolder;
pub use metafolder::unique_names;

pub use geom::COORD_MAX;
pub use geom::CELLS_MAX;
pub use geom::DIM_MAX;
pub use geom::Geom;
pub use geom::WIDTH_MAX;
pub use geom::ZOOM_MAX;
pub use geom::clamp_coord;
pub use geom::first_hit;
pub use geom::occupies;
pub use geom::probe_points;
pub use geom::scale_coord;
pub use geom::spec_collides;
pub use geom::unscale_coord;

pub use paths::up;
pub use paths::initial_dir;
pub use settings::IconEntry;
pub use settings::MemoFolder;
pub use settings::MemoIcon;
pub use settings::icon_lookup;
pub use settings::icons_insert;
pub use settings::icons_lookup;
pub use settings::icons_remove;
pub use settings::icons_remove_exec;

verus! {

/// Background color used when a folder has no stored override.
pub const DEFAULT_BG_COLOR: &'static str = "rgba(170, 170, 170, 1)";

/// Edge length, in canvas units, of a freshly drawn icon cell.
pub const ICON_SIZE: i64 = 60;

/// Canvas width assumed for shelf packing before the window reports its own.
pub const INITIAL_DESKTOP_WIDTH: i64 = 1024;

} // verus!
