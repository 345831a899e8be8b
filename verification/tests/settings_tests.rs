use metafolder::from_json;
use metafolder::icon_lookup;
use metafolder::icons_insert;
use metafolder::icons_remove_exec;
use metafolder::to_json;
use metafolder::IconEntry;
use metafolder::MemoFolder;
use metafolder::MemoIcon;
use metafolder::DEFAULT_BG_COLOR;

fn sample_layout() -> MemoFolder {
    MemoFolder {
        background_color: String::from("rgba(10, 20, 30, 0.5)"),
        font_color: String::from("#AAA5FF"),
        font_size: String::from("x-large"),
        font_bold: Some(true),
        cell_size: 80,
        drilldown: false,
        zoom: true,
        zoom_x: 150,
        zoom_y: 50,
        icons: vec![
            IconEntry {
                name: String::from("a.txt"),
                icon: MemoIcon { position_x: 5, position_y: 5 },
            },
            IconEntry {
                name: String::from("b tricky \"name\"\\with\nescapes"),
                icon: MemoIcon { position_x: -40, position_y: 9000000000 },
            },
        ],
    }
}

#[test]
fn round_trip_full_layout() {
    let m = sample_layout();
    let text = to_json(&m);
    let back = from_json(text.as_str()).expect("own encoding must parse");
    assert_eq!(back, sample_layout());
}

#[test]
fn round_trip_structural_default() {
    let m = MemoFolder::structural_default();
    let text = to_json(&m);
    let back = from_json(text.as_str()).expect("own encoding must parse");
    assert_eq!(back, MemoFolder::structural_default());
    assert_eq!(back.background_color, DEFAULT_BG_COLOR);
    assert!(back.drilldown);
    assert!(back.icons.is_empty());
}

#[test]
fn round_trip_extreme_numbers() {
    let mut m = MemoFolder::structural_default();
    m.cell_size = i64::MIN;
    m.zoom_x = i64::MAX;
    m.zoom_y = -1;
    let text = to_json(&m);
    let back = from_json(text.as_str()).expect("own encoding must parse");
    assert_eq!(back.cell_size, i64::MIN);
    assert_eq!(back.zoom_x, i64::MAX);
    assert_eq!(back.zoom_y, -1);
}

#[test]
fn parse_subset_sidecar() {
    let text = "{\"background_color\":\"rgba(10,10,10,1)\",\"cell_size\":60,\"icons\":{\"a.txt\":{\"position_x\":5,\"position_y\":5}}}";
    let m = from_json(text).expect("subset sidecar must parse");
    assert_eq!(m.background_color, "rgba(10,10,10,1)");
    assert_eq!(m.cell_size, 60);
    assert!(m.drilldown, "missing field keeps its structural default");
    assert_eq!(m.icons.len(), 1);
    assert_eq!(m.icons[0].name, "a.txt");
    assert_eq!(m.icons[0].icon, MemoIcon { position_x: 5, position_y: 5 });
}

#[test]
fn parse_tolerates_whitespace_and_order() {
    let text = "  {\n  \"drilldown\" : false ,\n\t\"zoom_x\": 150,\n  \"font_bold\": null }  ";
    let m = from_json(text).expect("reordered fields must parse");
    assert!(!m.drilldown);
    assert_eq!(m.zoom_x, 150);
    assert_eq!(m.font_bold, None);
    assert_eq!(m.background_color, DEFAULT_BG_COLOR);
}

#[test]
fn parse_empty_object_gives_defaults() {
    let m = from_json("{}").expect("empty object must parse");
    assert_eq!(m, MemoFolder::structural_default());
}

#[test]
fn parse_string_escapes() {
    let m = from_json("{\"font_size\": \"a\\\"b\\\\c\\nd\\te\"}").expect("escapes must parse");
    assert_eq!(m.font_size, "a\"b\\c\nd\te");
}

#[test]
fn parse_unicode_escapes() {
    // Control characters and other code points written as four-hex-digit
    // escapes, as other serializers emit them, read back as characters.
    let m = from_json("{\"font_size\": \"a\\u0041b\\u000ac\\u00E9\"}").expect("must parse");
    assert_eq!(m.font_size, "aAb\nc\u{e9}");
    assert!(from_json("{\"font_size\": \"\\uD800\"}").is_err(), "surrogate code point");
    assert!(from_json("{\"font_size\": \"\\u12\"}").is_err(), "truncated escape");
    assert!(from_json("{\"font_size\": \"\\u12Gz\"}").is_err(), "non-hex digit");
}

#[test]
fn malformed_sidecar_is_a_hard_error() {
    assert!(from_json("").is_err(), "empty text");
    assert!(from_json("{").is_err(), "unclosed object");
    assert!(from_json("[]").is_err(), "not an object");
    assert!(from_json("{\"drilldown\": maybe}").is_err(), "bad literal");
    assert!(from_json("{\"no_such_field\": 1}").is_err(), "unknown key");
    assert!(from_json("{} trailing").is_err(), "trailing text");
    assert!(from_json("{\"cell_size\": 99999999999999999999}").is_err(), "number out of range");
    assert!(from_json("{\"icons\":{\"a\":{\"position_y\":1,\"position_x\":2}}}").is_err(),
        "icon record fields out of order");
}

#[test]
fn icon_map_last_entry_wins() {
    let icons = vec![
        IconEntry { name: String::from("a"), icon: MemoIcon { position_x: 1, position_y: 1 } },
        IconEntry { name: String::from("a"), icon: MemoIcon { position_x: 2, position_y: 3 } },
    ];
    let found = icon_lookup(&icons, &String::from("a"));
    assert_eq!(found, Some(MemoIcon { position_x: 2, position_y: 3 }));
    assert_eq!(icon_lookup(&icons, &String::from("b")), None);
}

#[test]
fn icon_map_insert_and_remove() {
    let icons = vec![
        IconEntry { name: String::from("a"), icon: MemoIcon { position_x: 1, position_y: 1 } },
        IconEntry { name: String::from("b"), icon: MemoIcon { position_x: 2, position_y: 2 } },
    ];
    let icons = icons_insert(icons, String::from("a"), MemoIcon { position_x: 9, position_y: 9 });
    assert_eq!(icons.len(), 2);
    assert_eq!(
        icon_lookup(&icons, &String::from("a")),
        Some(MemoIcon { position_x: 9, position_y: 9 })
    );
    let icons = icons_remove_exec(icons, &String::from("a"));
    assert_eq!(icons.len(), 1);
    assert_eq!(icon_lookup(&icons, &String::from("a")), None);
    assert_eq!(
        icon_lookup(&icons, &String::from("b")),
        Some(MemoIcon { position_x: 2, position_y: 2 })
    );
}

#[test]
fn with_field_updates_replace_one_field() {
    let m = MemoFolder::structural_default();
    let m = m.with_drilldown(false);
    assert!(!m.drilldown);
    let m = m.with_cell_size(40);
    assert_eq!(m.cell_size, 40);
    let m = m.with_font_bold(true);
    assert_eq!(m.font_bold, Some(true));
    let m = m.with_font_size(String::from("small"));
    assert_eq!(m.font_size, "small");
    let m = m.with_font_color(String::from("#FFF"));
    assert_eq!(m.font_color, "#FFF");
    let m = m.with_background_color(String::from("rgba(1,2,3,1)"));
    assert_eq!(m.background_color, "rgba(1,2,3,1)");
    let m = m.with_zoom(true, 120, 130);
    assert!(m.zoom);
    assert_eq!((m.zoom_x, m.zoom_y), (120, 130));
}
