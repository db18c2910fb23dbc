use lithe::dispatch::{resolve, DispatchTable, Resolution};

fn table() -> DispatchTable {
    DispatchTable {
        entries: vec![("abc123".to_string(), "login_a1b2".to_string())],
    }
}

fn exports() -> Vec<String> {
    vec![
        "page1_handler_2_ffff".to_string(),
        "login_a1b2".to_string(),
    ]
}

#[test]
fn exact_export_name_wins() {
    let r = resolve("page1_handler_2_ffff", &table(), &exports());
    assert_eq!(r, Resolution::Exact);
}

#[test]
fn table_maps_identifier_to_export() {
    let r = resolve("abc123", &table(), &exports());
    assert_eq!(r, Resolution::Mapped("login_a1b2".to_string()));
}

#[test]
fn suffix_scan_is_the_last_resort() {
    // "ffff" matches no export exactly and no table key, so it falls
    // through to the suffix scan and finds the export ending in "_ffff"
    let r = resolve("ffff", &table(), &exports());
    assert_eq!(r, Resolution::Suffix("page1_handler_2_ffff".to_string()));
}

#[test]
fn suffix_scan_ignores_letter_case() {
    let r = resolve("FFFF", &table(), &exports());
    assert_eq!(r, Resolution::Suffix("page1_handler_2_ffff".to_string()));
}

#[test]
fn suffix_scan_takes_the_first_match_in_export_order() {
    let exports = vec![
        "one_x".to_string(),
        "two_x".to_string(),
    ];
    let empty = DispatchTable { entries: vec![] };
    let r = resolve("x", &empty, &exports);
    assert_eq!(r, Resolution::Suffix("one_x".to_string()));
}

#[test]
fn unresolvable_dispatch_is_a_miss_not_an_error() {
    let r = resolve("nothing_here", &table(), &exports());
    assert_eq!(r, Resolution::Miss);
    let r = resolve("", &DispatchTable { entries: vec![] }, &vec![]);
    assert_eq!(r, Resolution::Miss);
}

#[test]
fn building_a_table_accepts_distinct_identifiers() {
    let t = lithe::dispatch::build_dispatch_table(vec![
        ("abc123".to_string(), "login_a1b2".to_string()),
        ("def456".to_string(), "logout_c3d4".to_string()),
    ])
    .expect("distinct identifiers build");
    assert_eq!(t.entries.len(), 2);
}

#[test]
fn building_a_table_refuses_a_repeated_identifier() {
    let r = lithe::dispatch::build_dispatch_table(vec![
        ("abc123".to_string(), "login_a1b2".to_string()),
        ("def456".to_string(), "logout_c3d4".to_string()),
        ("abc123".to_string(), "other_e5f6".to_string()),
    ]);
    // the colliding position is reported; the build halts
    assert_eq!(r.err(), Some(2));
}

#[test]
fn exact_match_beats_table_and_suffix() {
    // a name that is simultaneously an export, a table key and a suffix:
    // the exact rule must win
    let t = DispatchTable {
        entries: vec![("login_a1b2".to_string(), "elsewhere".to_string())],
    };
    let r = resolve("login_a1b2", &t, &exports());
    assert_eq!(r, Resolution::Exact);
}
