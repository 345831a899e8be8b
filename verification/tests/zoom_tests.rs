use metafolder::DirItem;
use metafolder::IconEntry;
use metafolder::MemoFolder;
use metafolder::MemoIcon;
use metafolder::MetaFolder;

fn entry(name: &str) -> DirItem {
    DirItem { name: String::from(name), is_dir: false, mime_type: String::from("text/plain") }
}

fn memo_with(icons: Vec<IconEntry>) -> MemoFolder {
    let mut m = MemoFolder::structural_default();
    m.icons = icons;
    m
}

fn one_item_at(x: i64, y: i64) -> MetaFolder {
    let memo = memo_with(vec![IconEntry {
        name: String::from("a.txt"),
        icon: MemoIcon { position_x: x, position_y: y },
    }]);
    MetaFolder::build(String::from("/d/"), vec![entry("a.txt")], &memo, 1024, 60)
}

#[test]
fn preview_then_back_to_hundred_is_exact() {
    // A single item at (40, 40), no prior zoom baseline.
    let mut mf = one_item_at(40, 40);
    let name = String::from("a.txt");
    assert!(mf.zoom(150, 150));
    assert_eq!(mf.get_cell_position(&name), Some((60, 60)));
    assert!(mf.zoom(100, 100));
    assert_eq!(mf.get_cell_position(&name), Some((40, 40)));
}

#[test]
fn repeated_preview_of_active_percentages_is_a_no_op() {
    let mut mf = one_item_at(40, 40);
    let name = String::from("a.txt");
    assert!(mf.zoom(150, 150));
    let pos = mf.get_cell_position(&name);
    let changed = mf.zoom(150, 150);
    assert!(!changed, "a repeat of the active percentages reports no movement");
    assert_eq!(mf.get_cell_position(&name), pos);
    assert_eq!(mf.get_zoom_state(), (true, 150, 150));
}

#[test]
fn unzoom_restores_positions_after_any_preview_run() {
    let mut mf = one_item_at(49, 87);
    let name = String::from("a.txt");
    assert!(mf.zoom(66, 66));
    assert!(mf.zoom(55, 191));
    assert!(mf.zoom(150, 51));
    mf.unzoom();
    assert_eq!(mf.get_cell_position(&name), Some((49, 87)));
    assert_eq!(mf.get_zoom_state(), (false, 0, 0));
}

#[test]
fn unzoom_without_session_changes_nothing() {
    let mut mf = one_item_at(40, 40);
    let name = String::from("a.txt");
    mf.unzoom();
    assert_eq!(mf.get_cell_position(&name), Some((40, 40)));
    assert_eq!(mf.get_zoom_state(), (false, 0, 0));
}

#[test]
fn commit_freezes_zoomed_positions_and_resets_the_session() {
    let mut mf = one_item_at(40, 40);
    let name = String::from("a.txt");
    assert!(mf.zoom(150, 150));
    let memo = MemoFolder::structural_default().with_zoom(true, 150, 150);
    let saved = mf.zoom_commit(memo);
    assert!(!saved.zoom);
    assert_eq!((saved.zoom_x, saved.zoom_y), (0, 0));
    assert_eq!(saved.icons.len(), 1);
    assert_eq!(saved.icons[0].name, "a.txt");
    assert_eq!(saved.icons[0].icon, MemoIcon { position_x: 60, position_y: 60 });
    // The canvas stays at the zoomed layout; it is the new baseline.
    assert_eq!(mf.get_cell_position(&name), Some((60, 60)));
    assert_eq!(mf.get_zoom_state(), (false, 0, 0));
    // A later session rescales from the committed baseline.
    assert!(mf.zoom(50, 50));
    assert_eq!(mf.get_cell_position(&name), Some((30, 30)));
    mf.unzoom();
    assert_eq!(mf.get_cell_position(&name), Some((60, 60)));
}

#[test]
fn stored_zoom_session_is_restored_on_open() {
    // Persisted coordinates are the unzoomed baseline; a stored session
    // resumes by showing every cell at the baseline rescaled, and a later
    // cancel returns it to exactly the stored coordinate.
    let mut memo = memo_with(vec![IconEntry {
        name: String::from("a.txt"),
        icon: MemoIcon { position_x: 40, position_y: 40 },
    }]);
    memo.zoom = true;
    memo.zoom_x = 150;
    memo.zoom_y = 150;
    let mut mf = MetaFolder::build(String::from("/d/"), vec![entry("a.txt")], &memo, 1024, 60);
    let name = String::from("a.txt");
    assert_eq!(mf.get_zoom_state(), (true, 150, 150));
    assert_eq!(mf.get_cell_position(&name), Some((60, 60)));
    mf.unzoom();
    assert_eq!(mf.get_cell_position(&name), Some((40, 40)));
}

#[test]
fn drop_during_a_session_adjusts_the_baseline() {
    // A cell dropped while zoomed lands at the target; cancelling the
    // session puts it where the session would have put it: the target
    // unscaled by the active percentages.
    let mut mf = one_item_at(40, 40);
    let name = String::from("a.txt");
    assert!(mf.zoom(200, 200));
    assert_eq!(mf.get_cell_position(&name), Some((80, 80)));
    assert!(mf.apply_drop(&name, 300, 500));
    assert_eq!(mf.get_cell_position(&name), Some((300, 500)));
    mf.unzoom();
    assert_eq!(mf.get_cell_position(&name), Some((150, 250)));
}

#[test]
fn tap_positions_persist_through_a_scan() {
    let memo = memo_with(vec![IconEntry {
        name: String::from("a.txt"),
        icon: MemoIcon { position_x: 42, position_y: 87 },
    }]);
    let mut mf = MetaFolder::build(String::from("/d/"), vec![entry("a.txt")], &memo, 1024, 60);
    mf.tap();
    let saved = mf.scan_positions(memo, &String::new(), 0, 0);
    assert_eq!(saved.icons.len(), 1);
    assert_eq!(saved.icons[0].name, "a.txt");
    assert_eq!(saved.icons[0].icon, MemoIcon { position_x: 40, position_y: 85 });
}

#[test]
fn out_of_range_stored_zoom_is_dropped_on_open() {
    let mut memo = memo_with(vec![IconEntry {
        name: String::from("a.txt"),
        icon: MemoIcon { position_x: 40, position_y: 40 },
    }]);
    memo.zoom = true;
    memo.zoom_x = -5;
    memo.zoom_y = 150;
    let mf = MetaFolder::build(String::from("/d/"), vec![entry("a.txt")], &memo, 1024, 60);
    assert_eq!(mf.get_zoom_state(), (false, 0, 0));
}
