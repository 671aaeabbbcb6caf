use nomad::app::{get_breadcrumbs, get_settings, reset_args, split_lines, Action, App, Key, PopupMode, TreeView, UIMode};
use nomad::cli::Args;
use nomad::error::NomadError;
use nomad::markers::{classify_status, staged_kind, extend_marker_map, get_status_markers, MarkerKind, MarkerMap, MarkerStyle, StatusEntry, StatusFlags, StatusMarker};
use nomad::status::build_status_tree;
use nomad::tree::RenderOp;

fn args() -> Args {
    Args {
        all_labels: false,
        directory: None,
        dirs: false,
        disrespect: false,
        export: None,
        label_directories: false,
        hidden: false,
        max_depth: None,
        max_filesize: None,
        metadata: false,
        no_git: false,
        no_icons: false,
        numbers: false,
        pattern: None,
        plain: false,
        statistics: false,
        sub_commands: None,
    }
}

fn strings(v: &[&str]) -> Vec<String> {
    v.iter().map(|s| s.to_string()).collect()
}

fn app() -> App {
    App::new(
        strings(&["r", "├── a", "└── b.txt"]),
        strings(&["/home/r", "/home/r/a", "/home/r/b.txt"]),
        strings(&["home", "r"]),
        "r".to_string(),
    )
}

fn tree() -> TreeView {
    TreeView {
        directory_tree: strings(&["r", "└── c.txt"]),
        directory_items: strings(&["/home/r", "/home/r/c.txt"]),
        breadcrumbs: strings(&["home", "r"]),
    }
}

fn no_flags() -> StatusFlags {
    StatusFlags {
        index_new: false,
        index_modified: false,
        index_deleted: false,
        index_renamed: false,
        wt_new: false,
        wt_modified: false,
        wt_deleted: false,
        wt_renamed: false,
        conflicted: false,
    }
}

fn style() -> MarkerStyle {
    let m = |t: &str, c: u8| StatusMarker { marker: t.to_string(), colour: c };
    MarkerStyle {
        staged_deleted: m("SD", 1),
        staged_modified: m("SM", 3),
        staged_added: m("SA", 2),
        staged_renamed: m("SR", 172),
        deleted: m("D", 1),
        modified: m("M", 3),
        untracked: m("U", 8),
        renamed: m("R", 172),
        conflicted: m("CONFLICT", 9),
    }
}

#[test]
fn test_invalid_arg() {
    let rows = get_settings(&args());
    assert_eq!(rows.len(), 13);
    assert!(rows.iter().all(|r| !r.enabled));
}

#[test]
fn toggling_hidden_refreshes_once_and_returns_to_the_tree() {
    let mut a = app();
    let mut opts = args();
    let action = a.handle_key(&mut opts, Key::Char('h'), 40);
    assert!(matches!(action, Action::Refresh));
    assert!(opts.hidden);
    assert!(matches!(a.popup_mode, PopupMode::Reloading));
    a.refresh(&mut opts, Ok(tree()));
    assert!(a.ui_mode == UIMode::Normal);
    assert!(matches!(a.popup_mode, PopupMode::Disabled));
    assert_eq!(a.directory_tree, strings(&["r", "└── c.txt"]));
    assert!(opts.hidden);
}

#[test]
fn pattern_prompt_collects_input_and_searches() {
    let mut a = app();
    let mut opts = args();
    assert!(matches!(a.handle_key(&mut opts, Key::Char('/'), 40), Action::Nothing));
    assert!(matches!(a.popup_mode, PopupMode::PatternInput));
    for c in "rsx".chars() {
        a.handle_key(&mut opts, Key::Char(c), 40);
    }
    a.handle_key(&mut opts, Key::Backspace, 40);
    assert_eq!(a.user_input, "rs");
    assert!(matches!(a.handle_key(&mut opts, Key::Enter, 40), Action::Refresh));
    assert_eq!(opts.pattern, Some("rs".to_string()));
    assert_eq!(a.user_input, "");
    a.refresh(&mut opts, Err(NomadError::NothingFound));
    assert!(matches!(a.popup_mode, PopupMode::NothingFound));
    assert_eq!(opts.pattern, None);
    assert!(matches!(a.handle_key(&mut opts, Key::Char('x'), 40), Action::Nothing));
    assert!(matches!(a.popup_mode, PopupMode::Disabled));
}

#[test]
fn failed_refresh_shows_the_error_and_any_key_quits() {
    let mut a = app();
    let mut opts = args();
    a.handle_key(&mut opts, Key::Char('d'), 40);
    a.refresh(&mut opts, Err(NomadError::IoError("disk gone".to_string())));
    match &a.popup_mode {
        PopupMode::Error(m) => assert_eq!(m, "disk gone"),
        _ => panic!("expected an error popup"),
    }
    assert!(matches!(a.handle_key(&mut opts, Key::Down, 40), Action::Quit));
}

#[test]
fn escape_cycles_between_tree_and_breadcrumbs() {
    let mut a = app();
    let mut opts = args();
    a.handle_key(&mut opts, Key::Esc, 40);
    assert!(a.ui_mode == UIMode::Breadcrumbs);
    a.handle_key(&mut opts, Key::Left, 40);
    assert_eq!(a.breadcrumb_selected, Some(0));
    match a.handle_key(&mut opts, Key::Enter, 40) {
        Action::RefreshAt(path) => assert_eq!(path, "/home"),
        _ => panic!("expected a rebuild under the breadcrumb"),
    }
    a.refresh(&mut opts, Ok(tree()));
    assert!(a.ui_mode == UIMode::Normal);
    a.handle_key(&mut opts, Key::Esc, 40);
    a.handle_key(&mut opts, Key::Esc, 40);
    assert!(a.ui_mode == UIMode::Normal);
    assert_eq!(a.breadcrumb_selected, Some(1));
}

#[test]
fn tree_selection_wraps_and_asks_for_previews() {
    let mut a = app();
    let mut opts = args();
    assert!(matches!(a.handle_key(&mut opts, Key::Up, 40), Action::Preview));
    assert_eq!(a.tree_selected, Some(2));
    assert!(matches!(a.handle_key(&mut opts, Key::Char('j'), 40), Action::Preview));
    assert_eq!(a.tree_selected, Some(0));
    assert_eq!(a.selected_item(), Some("/home/r".to_string()));
    assert!(matches!(a.handle_key(&mut opts, Key::Enter, 40), Action::OpenSelected));
    a.tree_selected = Some(2);
    assert!(matches!(a.open_selected(false), Action::Preview));
    assert!(a.ui_mode == UIMode::Inspect);
    a.cat_file(Ok(Some("one\ntwo\n".to_string())));
    assert_eq!(a.file_contents, Some(strings(&["one", "two", ""])));
    a.handle_key(&mut opts, Key::Down, 40);
    a.handle_key(&mut opts, Key::Down, 40);
    assert_eq!(a.scroll, 2);
    a.handle_key(&mut opts, Key::Esc, 40);
    assert!(a.ui_mode == UIMode::Normal);
    assert_eq!(a.scroll, 0);
}

#[test]
fn help_scrolls_only_while_its_end_is_hidden() {
    let mut a = app();
    let mut opts = args();
    a.handle_key(&mut opts, Key::Char('?'), 22);
    assert!(a.ui_mode == UIMode::Help);
    for _ in 0..5 {
        a.handle_key(&mut opts, Key::Down, 22);
    }
    assert_eq!(a.scroll, 2);
    assert!(matches!(a.handle_key(&mut opts, Key::Char('q'), 22), Action::Quit));
}

#[test]
fn settings_popup_opens_moves_and_closes() {
    let mut a = app();
    let mut opts = args();
    a.handle_key(&mut opts, Key::Char('s'), 40);
    assert!(matches!(a.popup_mode, PopupMode::Settings));
    a.handle_key(&mut opts, Key::Up, 40);
    assert_eq!(a.settings_selected, Some(0));
    a.handle_key(&mut opts, Key::Up, 40);
    assert_eq!(a.settings_selected, Some(12));
    a.handle_key(&mut opts, Key::Char('s'), 40);
    assert!(matches!(a.popup_mode, PopupMode::Disabled));
}

#[test]
fn export_prompt_names_the_file() {
    let mut a = app();
    let mut opts = args();
    a.handle_key(&mut opts, Key::Char('x'), 40);
    a.handle_key(&mut opts, Key::Char('t'), 40);
    match a.handle_key(&mut opts, Key::Enter, 40) {
        Action::Export(name) => assert_eq!(name, "t"),
        _ => panic!("expected an export"),
    }
    assert!(matches!(a.popup_mode, PopupMode::Disabled));
    assert_eq!(opts.pattern, None);
}

#[test]
fn reset_turns_every_option_off() {
    let mut opts = args();
    opts.hidden = true;
    opts.max_depth = Some(3);
    opts.pattern = Some("x".to_string());
    opts.export = Some("out.txt".to_string());
    reset_args(&mut opts);
    assert!(!opts.hidden);
    assert_eq!(opts.max_depth, None);
    assert_eq!(opts.pattern, None);
    assert_eq!(opts.export, Some("out.txt".to_string()));
}

#[test]
fn settings_rows_show_values() {
    let mut opts = args();
    opts.max_depth = Some(42);
    opts.max_filesize = Some(1 << 40);
    opts.pattern = Some("rs$".to_string());
    opts.hidden = true;
    let rows = get_settings(&opts);
    assert_eq!(rows[3].label, " hidden");
    assert_eq!(rows[3].value, "true");
    assert!(rows[3].enabled);
    assert_eq!(rows[5].value, "42");
    assert_eq!(rows[6].value, "1099511627776");
    assert_eq!(rows[11].value, "rs$");
    assert_eq!(rows[12].value, "false");
}

#[test]
fn breadcrumbs_are_the_path_names() {
    assert_eq!(get_breadcrumbs("/home/user/project"), strings(&["home", "user", "project"]));
    assert_eq!(split_lines("a\n\nb"), strings(&["a", "", "b"]));
}

#[test]
fn status_priority_prefers_staged_changes() {
    let mut f = no_flags();
    assert!(classify_status(f).is_none());
    f.wt_new = true;
    assert!(classify_status(f) == Some(MarkerKind::Untracked));
    f.wt_modified = true;
    assert!(classify_status(f) == Some(MarkerKind::Modified));
    f.index_new = true;
    assert!(classify_status(f) == Some(MarkerKind::StagedAdded));
    f.index_deleted = true;
    assert!(classify_status(f) == Some(MarkerKind::StagedDeleted));
    let mut c = no_flags();
    c.conflicted = true;
    assert!(classify_status(c) == Some(MarkerKind::Conflicted));
}

#[test]
fn later_reports_override_earlier_markers() {
    let mut modified = no_flags();
    modified.wt_modified = true;
    let mut staged = no_flags();
    staged.index_modified = true;
    let mut map = MarkerMap::new();
    extend_marker_map(&mut map, &style(), &vec![StatusEntry { path: "f".to_string(), status: modified }], "/r");
    extend_marker_map(&mut map, &style(), &vec![
        StatusEntry { path: "f".to_string(), status: staged },
        StatusEntry { path: "clean".to_string(), status: no_flags() },
    ], "/r/");
    assert_eq!(map.entries.len(), 2);
    assert_eq!(map.get(&"/r/f".to_string()), Some("\u{1b}[38;5;3mSM\u{1b}[0m".to_string()));
    assert_eq!(map.get(&"/r/clean".to_string()), None);
    let only = get_status_markers(&style(), &vec![StatusEntry { path: "x".to_string(), status: modified }], "/t");
    assert_eq!(only.entries, vec![("/t/x".to_string(), "\u{1b}[38;5;3mM\u{1b}[0m".to_string())]);
}

#[test]
fn status_tree_sorts_changed_entries() {
    let mut modified = no_flags();
    modified.wt_modified = true;
    let mut map = MarkerMap::new();
    extend_marker_map(&mut map, &style(), &vec![
        StatusEntry { path: "z.txt".to_string(), status: modified },
        StatusEntry { path: "a/b.txt".to_string(), status: modified },
    ], "/r");
    let out = build_status_tree(&args(), &map, "/r").ok().unwrap();
    let names: Vec<String> = out.ops.iter().filter_map(|op| match op {
        RenderOp::OpenDir { name, .. } => Some(name.clone()),
        RenderOp::File { name, .. } => Some(name.clone()),
        RenderOp::Close => None,
    }).collect();
    assert_eq!(names, strings(&["a", "b.txt", "z.txt"]));
    let empty = MarkerMap::new();
    assert!(matches!(build_status_tree(&args(), &empty, "/r"), Err(NomadError::NothingFound)));
}

#[test]
fn slash_closes_the_nothing_found_popup() {
    let mut a = app();
    let mut opts = args();
    a.popup_mode = PopupMode::NothingFound;
    assert!(matches!(a.handle_key(&mut opts, Key::Char('/'), 40), Action::Nothing));
    assert!(matches!(a.popup_mode, PopupMode::Disabled));
}

#[test]
fn refresh_keeps_the_focused_widget() {
    let mut a = app();
    let mut opts = args();
    a.ui_mode = UIMode::Help;
    a.refresh(&mut opts, Ok(tree()));
    assert!(a.ui_mode == UIMode::Help);
    assert!(matches!(a.popup_mode, PopupMode::Disabled));
}

#[test]
fn opening_a_directory_rebuilds_under_it() {
    let mut a = app();
    a.tree_selected = Some(1);
    match a.open_selected(true) {
        Action::RefreshAt(path) => assert_eq!(path, "/home/r/a"),
        _ => panic!("expected a rebuild under the directory"),
    }
    assert!(matches!(a.popup_mode, PopupMode::Reloading));
    a.tree_selected = None;
    assert!(matches!(a.open_selected(true), Action::Nothing));
}

#[test]
fn failed_reads_and_exports_show_the_error() {
    let mut a = app();
    a.cat_file(Ok(Some("x".to_string())));
    a.cat_file(Err(NomadError::IoError("denied".to_string())));
    assert_eq!(a.file_contents, Some(strings(&["x"])));
    match &a.popup_mode {
        PopupMode::Error(m) => assert_eq!(m, "denied"),
        _ => panic!("expected an error popup"),
    }
    let mut b = app();
    b.exported(Ok(()));
    assert!(matches!(b.popup_mode, PopupMode::Disabled));
    b.exported(Err(NomadError::IoError("full".to_string())));
    assert!(matches!(b.popup_mode, PopupMode::Error(_)));
    b.cat_file(Ok(None));
    assert_eq!(b.file_contents, None);
}

#[test]
fn painted_markers_tell_staged_statuses() {
    let s = style();
    assert!(staged_kind(&s, &"\u{1b}[38;5;1mSD\u{1b}[0m".to_string()) == Some(MarkerKind::StagedDeleted));
    assert!(staged_kind(&s, &"\u{1b}[38;5;9mCONFLICT\u{1b}[0m".to_string()) == Some(MarkerKind::Conflicted));
    assert!(staged_kind(&s, &"\u{1b}[38;5;3mM\u{1b}[0m".to_string()).is_none());
    assert!(staged_kind(&s, &"SD".to_string()).is_none());
}
