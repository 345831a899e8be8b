use metafolder::DirItem;
use metafolder::FsEvent;
use metafolder::IconEntry;
use metafolder::MemoFolder;
use metafolder::MemoIcon;
use metafolder::MetaFolder;

fn entry(name: &str) -> DirItem {
    DirItem { name: String::from(name), is_dir: false, mime_type: String::from("text/plain") }
}

fn memo_with(icons: Vec<IconEntry>) -> MemoFolder {
    let mut m = MemoFolder::structural_default();
    m.icons = icons;
    m
}

fn stored(name: &str, x: i64, y: i64) -> IconEntry {
    IconEntry { name: String::from(name), icon: MemoIcon { position_x: x, position_y: y } }
}

#[test]
fn deleted_removes_the_cell_and_its_icon_entry() {
    let memo = memo_with(vec![stored("a.txt", 5, 5), stored("b.txt", 100, 100)]);
    let entries = vec![entry("a.txt"), entry("b.txt")];
    let mut mf = MetaFolder::build(String::from("/d/"), entries, &memo, 1024, 60);
    let (found, saved) = mf.delete_cell(&String::from("a.txt"), memo);
    assert!(found);
    assert_eq!(mf.cell_count(), 1);
    assert_eq!(mf.get_cell_position(&String::from("a.txt")), None);
    assert_eq!(saved.icons.len(), 1);
    assert_eq!(saved.icons[0].name, "b.txt");
}

#[test]
fn double_delete_is_reported_and_harmless() {
    let memo = memo_with(vec![stored("a.txt", 5, 5)]);
    let mut mf = MetaFolder::build(String::from("/d/"), vec![entry("a.txt")], &memo, 1024, 60);
    let (found, saved) = mf.delete_cell(&String::from("a.txt"), memo);
    assert!(found);
    let (found2, saved2) = mf.delete_cell(&String::from("a.txt"), saved);
    assert!(!found2, "a racing duplicate delete is reported, never fatal");
    assert_eq!(mf.cell_count(), 0);
    assert!(saved2.icons.is_empty());
}

#[test]
fn rename_keeps_position_and_flags_and_migrates_the_icon_entry() {
    let memo = memo_with(vec![stored("old.txt", 5, 5)]);
    let mut mf = MetaFolder::build(String::from("/d/"), vec![entry("old.txt")], &memo, 1024, 60);
    let (ok, saved) = mf.rename_cell(&String::from("old.txt"), String::from("new.txt"), memo);
    assert!(ok);
    assert_eq!(mf.get_cell_position(&String::from("old.txt")), None);
    assert_eq!(mf.get_cell_position(&String::from("new.txt")), Some((5, 5)));
    assert!(!mf.is_cell_newly_added(&String::from("new.txt")));
    assert_eq!(saved.icons.len(), 1);
    assert_eq!(saved.icons[0].name, "new.txt");
    assert_eq!(saved.icons[0].icon, MemoIcon { position_x: 5, position_y: 5 });
    // A position scan after the rename yields the same coordinate under the
    // new name that existed under the old one before it.
    let rescanned = mf.scan_positions(saved, &String::from("unrelated"), 0, 0);
    assert_eq!(rescanned.icons.len(), 1);
    assert_eq!(rescanned.icons[0].name, "new.txt");
    assert_eq!(rescanned.icons[0].icon, MemoIcon { position_x: 5, position_y: 5 });
}

#[test]
fn rename_from_an_absent_name_changes_nothing() {
    let memo = memo_with(vec![stored("a.txt", 5, 5)]);
    let mut mf = MetaFolder::build(String::from("/d/"), vec![entry("a.txt")], &memo, 1024, 60);
    let (ok, saved) = mf.rename_cell(&String::from("ghost"), String::from("new.txt"), memo);
    assert!(!ok, "a rename from an absent name is reported, never fatal");
    assert_eq!(mf.cell_count(), 1);
    assert_eq!(saved.icons.len(), 1);
    assert_eq!(saved.icons[0].name, "a.txt");
}

#[test]
fn rename_onto_a_present_name_is_refused() {
    let memo = memo_with(vec![stored("a.txt", 5, 5), stored("b.txt", 100, 100)]);
    let entries = vec![entry("a.txt"), entry("b.txt")];
    let mut mf = MetaFolder::build(String::from("/d/"), entries, &memo, 1024, 60);
    let (ok, _saved) = mf.rename_cell(&String::from("a.txt"), String::from("b.txt"), memo);
    assert!(!ok);
    assert_eq!(mf.get_cell_position(&String::from("a.txt")), Some((5, 5)));
}

#[test]
fn rename_with_a_missing_icon_entry_still_renames_the_cell() {
    let memo = memo_with(vec![]);
    let stored_memo = memo_with(vec![stored("other", 9, 9)]);
    let mut mf = MetaFolder::build(String::from("/d/"), vec![entry("a.txt")], &memo, 1024, 60);
    let (ok, saved) = mf.rename_cell(&String::from("a.txt"), String::from("z.txt"), stored_memo);
    assert!(ok);
    assert!(mf.get_cell_position(&String::from("z.txt")).is_some());
    assert_eq!(saved.icons.len(), 1, "an absent entry under the old key is left alone");
    assert_eq!(saved.icons[0].name, "other");
}

#[test]
fn created_places_the_cell_and_persists_it_at_once() {
    let memo = memo_with(vec![stored("a.txt", 0, 0)]);
    let mut mf = MetaFolder::build(String::from("/d/"), vec![entry("a.txt")], &memo, 1024, 60);
    let (placed, saved) = mf.create_cell(entry("new.txt"), 60, 1024, memo);
    assert!(placed);
    assert_eq!(mf.get_cell_position(&String::from("new.txt")), Some((80, 0)));
    assert!(mf.is_cell_newly_added(&String::from("new.txt")));
    assert_eq!(saved.icons.len(), 2);
    assert_eq!(saved.icons[1].name, "new.txt");
    assert_eq!(saved.icons[1].icon, MemoIcon { position_x: 80, position_y: 0 });
}

#[test]
fn duplicate_created_event_changes_nothing() {
    let memo = memo_with(vec![stored("a.txt", 0, 0)]);
    let mut mf = MetaFolder::build(String::from("/d/"), vec![entry("a.txt")], &memo, 1024, 60);
    let (placed, saved) = mf.create_cell(entry("a.txt"), 60, 1024, memo);
    assert!(!placed);
    assert_eq!(mf.cell_count(), 1);
    assert_eq!(saved.icons.len(), 1);
}

#[test]
fn events_dispatch_to_their_handlers() {
    let memo = memo_with(vec![stored("a.txt", 5, 5)]);
    let mut mf = MetaFolder::build(String::from("/d/"), vec![entry("a.txt")], &memo, 1024, 60);
    let (save, m1) = mf.apply_event(FsEvent::Created(entry("b.txt")), 60, 1024, memo);
    assert!(save);
    assert_eq!(mf.cell_count(), 2);
    let (save, m2) = mf.apply_event(
        FsEvent::Renamed(String::from("b.txt"), String::from("c.txt")),
        60,
        1024,
        m1,
    );
    assert!(save);
    assert!(mf.get_cell_position(&String::from("c.txt")).is_some());
    let (save, m3) = mf.apply_event(FsEvent::Moved(String::from("c.txt")), 60, 1024, m2);
    assert!(!save, "a same-directory move is informational");
    assert_eq!(mf.cell_count(), 2);
    let (save, m4) = mf.apply_event(FsEvent::MovedOut(String::from("c.txt")), 60, 1024, m3);
    assert!(save);
    assert_eq!(mf.cell_count(), 1);
    let (save, _m5) = mf.apply_event(FsEvent::Other, 60, 1024, m4);
    assert!(!save, "an unrecognized event changes nothing");
    assert_eq!(mf.cell_count(), 1);
}
