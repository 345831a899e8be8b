use metafolder::initial_dir;
use metafolder::rgba_to_hex;
use metafolder::up;
use metafolder::DirItem;
use metafolder::IconEntry;
use metafolder::MemoFolder;
use metafolder::MemoIcon;
use metafolder::MetaFolder;

fn entry(name: &str) -> DirItem {
    DirItem { name: String::from(name), is_dir: false, mime_type: String::from("text/plain") }
}

fn memo_with(icons: Vec<IconEntry>) -> MemoFolder {
    let mut m = MemoFolder::structural_default();
    m.icons = icons;
    m
}

fn stored(name: &str, x: i64, y: i64) -> IconEntry {
    IconEntry { name: String::from(name), icon: MemoIcon { position_x: x, position_y: y } }
}

#[test]
fn find_matches_names_case_insensitively() {
    let memo = memo_with(vec![stored("Alpha.TXT", 0, 0), stored("beta.txt", 100, 100)]);
    let entries = vec![entry("Alpha.TXT"), entry("beta.txt")];
    let mut mf = MetaFolder::build(String::from("/d/"), entries, &memo, 1024, 60);
    // Both sides are folded: an uppercase query matches a mixed-case name.
    let count = mf.find_cell(&String::from("ALPHA"));
    assert_eq!(count, 1);
    assert!(mf.is_cell_found(&String::from("Alpha.TXT")));
    assert!(!mf.is_cell_found(&String::from("beta.txt")));
    let count = mf.find_cell(&String::from("TxT"));
    assert_eq!(count, 2);
    let count = mf.find_cell(&String::from("gamma"));
    assert_eq!(count, 0);
    assert!(!mf.is_cell_found(&String::from("Alpha.TXT")));
}

#[test]
fn clearing_search_marks_unmarks_everything() {
    let memo = memo_with(vec![stored("Alpha.TXT", 0, 0)]);
    let mut mf = MetaFolder::build(String::from("/d/"), vec![entry("Alpha.TXT")], &memo, 1024, 60);
    mf.find_cell(&String::from("alpha"));
    assert!(mf.is_cell_found(&String::from("Alpha.TXT")));
    mf.clear_found_cells();
    assert!(!mf.is_cell_found(&String::from("Alpha.TXT")));
}

#[test]
fn tap_snaps_every_cell_to_the_five_unit_grid() {
    let memo = memo_with(vec![stored("a", 42, 87), stored("b", 100, 4), stored("c", -7, -13)]);
    let entries = vec![entry("a"), entry("b"), entry("c")];
    let mut mf = MetaFolder::build(String::from("/d/"), entries, &memo, 1024, 60);
    mf.tap();
    assert_eq!(mf.get_cell_position(&String::from("a")), Some((40, 85)));
    assert_eq!(mf.get_cell_position(&String::from("b")), Some((100, 0)));
    assert_eq!(
        mf.get_cell_position(&String::from("c")),
        Some((-5, -10)),
        "negative coordinates snap toward zero"
    );
}

#[test]
fn begin_drag_captures_the_cell_bounds_and_grab_offset() {
    let memo = memo_with(vec![stored("a", 42, 87)]);
    let mf = MetaFolder::build(String::from("/d/"), vec![entry("a")], &memo, 1024, 60);
    let p = mf.begin_drag(&String::from("a"), 12, 9).expect("a present cell yields a payload");
    assert_eq!(p.name, "a");
    assert_eq!((p.pos_x, p.pos_y), (42, 87));
    assert_eq!((p.w, p.h), (60, 60));
    assert_eq!((p.grabbed_x, p.grabbed_y), (12, 9));
    assert!(mf.begin_drag(&String::from("ghost"), 0, 0).is_none());
}

#[test]
fn cosmetic_updates_write_through_to_the_layout() {
    let memo = MemoFolder::structural_default();
    let mut mf = MetaFolder::build(String::from("/d/"), vec![], &memo, 1024, 60);
    let saved = mf.set_drilldown(false, memo);
    assert!(!saved.drilldown);
    assert!(!mf.get_drilldown());
    let saved = mf.update_background_color(String::from("rgba(1,2,3,1)"), saved);
    assert_eq!(saved.background_color, "rgba(1,2,3,1)");
    assert_eq!(mf.get_background_color(), "rgba(1,2,3,1)");
}

#[test]
fn rgba_display_strings_become_unpadded_uppercase_hex() {
    assert_eq!(rgba_to_hex("rgba(170,170,170,1)"), Some(String::from("#AAAAAA")));
    assert_eq!(rgba_to_hex("rgba(10, 20, 30, 0.5)"), Some(String::from("#A141E")));
    assert_eq!(rgba_to_hex("rgba(0,0,0,1)"), Some(String::from("#000")));
    assert_eq!(rgba_to_hex("255 255"), None);
    assert_eq!(rgba_to_hex("no digits here"), None);
    assert_eq!(rgba_to_hex("rgba(99999999, 1, 2, 3)"), None);
}

#[test]
fn up_cuts_the_last_path_component() {
    assert_eq!(up(&String::from("/")), None);
    assert_eq!(up(&String::from("/home/user/Desktop/")), Some(String::from("/home/user/")));
    assert_eq!(up(&String::from("/home/user")), Some(String::from("/home/")));
    assert_eq!(up(&String::from("/home/")), Some(String::from("//")));
}

#[test]
fn up_follows_the_path_walk_on_degenerate_paths() {
    // Repeated separators: the last component is cut together with the
    // whole separator run before it, as the standard path walk cuts it.
    assert_eq!(up(&String::from("a//b")), Some(String::from("a/")));
    assert_eq!(up(&String::from("a//")), Some(String::from("/")));
    assert_eq!(up(&String::from("//")), None);
    assert_eq!(up(&String::from("")), None);
}

#[test]
fn initial_dir_prefers_the_desktop_subfolder() {
    assert_eq!(initial_dir("/home/user", true), "/home/user/Desktop/");
    assert_eq!(initial_dir("/home/user", false), "/home/user/");
}
