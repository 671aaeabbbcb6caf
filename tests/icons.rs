use nomad::icons::{get_icons_by_extension, get_icons_by_name};

#[test]
fn test_get_icons_by_extension_valid_key() {
    let icons = get_icons_by_extension();

    assert_eq!(icons.get("rs"), Some(&"\u{e7a8}"));
}

#[test]
fn test_get_icons_by_extension_invalid_key() {
    let icons = get_icons_by_extension();

    assert_eq!(icons.get("asdf"), None);
}

#[test]
fn test_get_icons_by_name_valid_key() {
    let icons = get_icons_by_name();

    assert_eq!(icons.get(".vimrc"), Some(&"\u{e62b}"));
}

#[test]
fn test_get_icons_by_name_invalid_key() {
    let icons = get_icons_by_name();

    assert_eq!(icons.get("asdf"), None);
}

#[test]
fn icon_tables_hold_every_entry_once() {
    let by_extension = get_icons_by_extension();
    let by_name = get_icons_by_name();
    assert_eq!(by_extension.entries.len(), 195);
    assert_eq!(by_name.entries.len(), 34);
    for (i, (k, _)) in by_extension.entries.iter().enumerate() {
        assert!(by_extension.entries[..i].iter().all(|(other, _)| other != k));
    }
}
