use metafolder::DirItem;
use metafolder::DropPrep;
use metafolder::IconEntry;
use metafolder::MemoFolder;
use metafolder::MemoIcon;
use metafolder::MetaFolder;

fn entry(name: &str) -> DirItem {
    DirItem { name: String::from(name), is_dir: false, mime_type: String::from("text/plain") }
}

fn memo_with(icons: Vec<IconEntry>) -> MemoFolder {
    let mut m = MemoFolder::structural_default();
    m.icons = icons;
    m
}

fn stored(name: &str, x: i64, y: i64) -> IconEntry {
    IconEntry { name: String::from(name), icon: MemoIcon { position_x: x, position_y: y } }
}

#[test]
fn open_restores_stored_and_shelf_packs_new_entries() {
    // Folder with a stored position for a.txt and a new b.txt: a.txt opens
    // at exactly (5, 5); b.txt is newly added at a shelf slot clear of
    // (5, 5)..(65, 65).
    let memo = memo_with(vec![stored("a.txt", 5, 5)]);
    let entries = vec![entry("a.txt"), entry("b.txt")];
    let mf = MetaFolder::build(String::from("/d/"), entries, &memo, 1024, 60);
    let a = String::from("a.txt");
    let b = String::from("b.txt");
    assert_eq!(mf.get_cell_position(&a), Some((5, 5)));
    assert!(!mf.is_cell_newly_added(&a));
    assert!(mf.is_cell_newly_added(&b));
    // The column cursor starts at the largest stored Y (5) and advances by
    // a cell and a third per entry: 5, 85, 165.
    let (bx, by) = mf.get_cell_position(&b).unwrap();
    assert_eq!((bx, by), (165, 0));
    assert!(bx + 60 < 5 || bx > 65 || by + 60 < 5 || by > 65 || bx > 65);
    assert!(bx > 65, "the shelf slot must not overlap the restored cell");
}

#[test]
fn shelf_scan_wraps_past_the_desktop_width() {
    // Width 200, cell 60: the cursor steps by 80 and wraps to column zero
    // two cell heights lower once it passes 200.
    let memo = MemoFolder::structural_default();
    let entries = vec![entry("a"), entry("b"), entry("c"), entry("d")];
    let mf = MetaFolder::build(String::from("/d/"), entries, &memo, 200, 60);
    assert_eq!(mf.get_cell_position(&String::from("a")), Some((80, 0)));
    assert_eq!(mf.get_cell_position(&String::from("b")), Some((160, 0)));
    assert_eq!(mf.get_cell_position(&String::from("c")), Some((0, 120)));
    assert_eq!(mf.get_cell_position(&String::from("d")), Some((80, 120)));
}

#[test]
fn collision_probe_sees_another_cell_and_ignores_self() {
    let memo = memo_with(vec![stored("a.txt", 0, 0), stored("b.txt", 200, 200)]);
    let entries = vec![entry("a.txt"), entry("b.txt")];
    let mf = MetaFolder::build(String::from("/d/"), entries, &memo, 1024, 60);
    let b = String::from("b.txt");
    // Dropping b onto a's cell collides.
    assert!(mf.is_something_underneath(&b, 10, 10, 60, 60));
    // Dropping b onto its own spot is not a collision.
    assert!(!mf.is_something_underneath(&b, 210, 210, 60, 60));
    // Empty canvas space is free.
    assert!(!mf.is_something_underneath(&b, 500, 500, 60, 60));
}

#[test]
fn self_hit_is_skipped_and_later_probe_points_still_count() {
    // The drop rectangle's first corner lands on the dragged cell itself:
    // that hit is ignored and the scan continues, so the other cell under
    // a later corner still makes the drop collide.
    let memo = memo_with(vec![stored("b.txt", 100, 100), stored("c.txt", 170, 100)]);
    let entries = vec![entry("b.txt"), entry("c.txt")];
    let mf = MetaFolder::build(String::from("/d/"), entries, &memo, 1024, 60);
    let b = String::from("b.txt");
    // Rect (120,120)-(180,180): corner (120,120) hits b itself, corner
    // (180,120) hits c.
    assert!(mf.is_something_underneath(&b, 120, 120, 60, 60));
}

#[test]
fn free_slot_skips_occupied_shelf_positions() {
    let memo = memo_with(vec![stored("a.txt", 0, 0)]);
    let entries = vec![entry("a.txt")];
    let mf = MetaFolder::build(String::from("/d/"), entries, &memo, 1024, 60);
    let (x, y) = mf.find_free_slot(60, 1024);
    assert_eq!((x, y), (80, 0));
    assert!(!mf.is_something_underneath(&String::new(), x, y, 60, 60));
}

#[test]
fn drop_onto_occupied_rectangle_is_rejected() {
    // Item a sits fully under the drop rectangle; the drop of b there is
    // rejected, and b's position and persisted entry stay unchanged.
    let memo = memo_with(vec![stored("a.txt", 0, 0), stored("b.txt", 300, 300)]);
    let entries = vec![entry("a.txt"), entry("b.txt")];
    let mut mf = MetaFolder::build(String::from("/d/"), entries, &memo, 1024, 60);
    let b = String::from("b.txt");
    let before = mf.get_cell_position(&b);
    let verdict = mf.drop_cell(&b, 10, 10, memo_with(vec![stored("b.txt", 300, 300)]));
    assert!(matches!(verdict, DropPrep::Rejected));
    assert_eq!(mf.get_cell_position(&b), before);
}

#[test]
fn accepted_drop_scans_positions_and_moves_after_save() {
    let memo = memo_with(vec![stored("a.txt", 0, 0), stored("b.txt", 300, 300)]);
    let entries = vec![entry("a.txt"), entry("b.txt")];
    let mut mf = MetaFolder::build(String::from("/d/"), entries, &memo, 1024, 60);
    let b = String::from("b.txt");
    let verdict = mf.drop_cell(&b, 500, 500, memo_with(vec![]));
    let saved = match verdict {
        DropPrep::Accepted(m) => m,
        _ => panic!("a drop onto free space must be accepted"),
    };
    assert_eq!(saved.icons.len(), 2);
    assert_eq!(saved.icons[0].name, "a.txt");
    assert_eq!(saved.icons[0].icon, MemoIcon { position_x: 0, position_y: 0 });
    assert_eq!(saved.icons[1].name, "b.txt");
    assert_eq!(saved.icons[1].icon, MemoIcon { position_x: 500, position_y: 500 });
    // The cell moves only after the save succeeded.
    assert_eq!(mf.get_cell_position(&b), Some((300, 300)));
    assert!(mf.apply_drop(&b, 500, 500));
    assert_eq!(mf.get_cell_position(&b), Some((500, 500)));
}

#[test]
fn drop_past_the_canvas_edge_keeps_the_negative_coordinate() {
    let memo = memo_with(vec![stored("a.txt", 300, 300)]);
    let mut mf = MetaFolder::build(String::from("/d/"), vec![entry("a.txt")], &memo, 1024, 60);
    let a = String::from("a.txt");
    let verdict = mf.drop_cell(&a, -12, 4, memo_with(vec![]));
    let saved = match verdict {
        DropPrep::Accepted(m) => m,
        _ => panic!("the drop must be accepted"),
    };
    assert_eq!(saved.icons[0].icon, MemoIcon { position_x: -12, position_y: 4 });
    assert!(mf.apply_drop(&a, -12, 4));
    assert_eq!(mf.get_cell_position(&a), Some((-12, 4)));
}

#[test]
fn drop_of_unknown_cell_is_abandoned() {
    let memo = memo_with(vec![stored("a.txt", 0, 0)]);
    let mut mf = MetaFolder::build(String::from("/d/"), vec![entry("a.txt")], &memo, 1024, 60);
    let verdict = mf.drop_cell(&String::from("ghost"), 500, 500, memo_with(vec![]));
    assert!(matches!(verdict, DropPrep::Unknown));
    assert!(!mf.apply_drop(&String::from("ghost"), 500, 500));
}

#[test]
fn newly_added_cells_stay_out_of_an_unrelated_scan() {
    // b.txt has no stored position: it opens newly added. A drop of a.txt
    // produces a scan without b.txt, so its auto-placed slot is never
    // persisted as if the user chose it.
    let memo = memo_with(vec![stored("a.txt", 5, 5)]);
    let entries = vec![entry("a.txt"), entry("b.txt")];
    let mut mf = MetaFolder::build(String::from("/d/"), entries, &memo, 1024, 60);
    let a = String::from("a.txt");
    let verdict = mf.drop_cell(&a, 600, 600, memo_with(vec![]));
    let saved = match verdict {
        DropPrep::Accepted(m) => m,
        _ => panic!("the drop must be accepted"),
    };
    assert_eq!(saved.icons.len(), 1);
    assert_eq!(saved.icons[0].name, "a.txt");
    // Once b.txt is itself dropped, it is deliberately placed and scanned.
    let verdict2 = mf.drop_cell(&String::from("b.txt"), 700, 700, saved);
    let saved2 = match verdict2 {
        DropPrep::Accepted(m) => m,
        _ => panic!("the drop must be accepted"),
    };
    assert!(mf.apply_drop(&String::from("b.txt"), 700, 700));
    assert_eq!(saved2.icons.len(), 2);
    assert_eq!(saved2.icons[1].name, "b.txt");
    assert_eq!(saved2.icons[1].icon, MemoIcon { position_x: 700, position_y: 700 });
}

#[test]
fn negative_stored_positions_are_restored_exactly() {
    // A cell dragged past the canvas edge persists a negative coordinate
    // and must come back to exactly that spot.
    let memo = memo_with(vec![stored("a.txt", -50, 7)]);
    let mf = MetaFolder::build(String::from("/d/"), vec![entry("a.txt")], &memo, 1024, 60);
    assert_eq!(mf.get_cell_position(&String::from("a.txt")), Some((-50, 7)));
}

#[test]
fn stored_positions_beyond_the_storable_range_are_clamped() {
    let memo = memo_with(vec![stored("a.txt", i64::MIN, i64::MAX)]);
    let mf = MetaFolder::build(String::from("/d/"), vec![entry("a.txt")], &memo, 1024, 60);
    assert_eq!(
        mf.get_cell_position(&String::from("a.txt")),
        Some((-metafolder::COORD_MAX, metafolder::COORD_MAX))
    );
}
