use nomad::cli::Args;
use nomad::error::NomadError;
use nomad::label::{decimal_string, directory_label};
use nomad::markers::{MarkerStyle, StatusEntry, StatusFlags, StatusMarker};
use nomad::modes::NomadMode;
use nomad::paths::{join_components, relative_components, split_components};
use nomad::table::AddressTable;
use nomad::transform::{FoundItem, TransformFound};
use nomad::traverse::{check_pattern, walk_directory, WalkEntry};
use nomad::icons::{extension, file_icon, get_icons_by_extension, get_icons_by_name};
use nomad::tree::{split_matched, RenderOp, ToTree, TreeOutput};

fn args() -> Args {
    Args {
        all_labels: false,
        directory: None,
        dirs: false,
        disrespect: false,
        export: None,
        label_directories: false,
        hidden: false,
        max_depth: None,
        max_filesize: None,
        metadata: false,
        no_git: false,
        no_icons: false,
        numbers: false,
        pattern: None,
        plain: false,
        statistics: false,
        sub_commands: None,
    }
}

fn marker(text: &str, colour: u8) -> StatusMarker {
    StatusMarker { marker: text.to_string(), colour }
}

fn style() -> MarkerStyle {
    MarkerStyle {
        staged_deleted: marker("SD", 1),
        staged_modified: marker("SM", 3),
        staged_added: marker("SA", 2),
        staged_renamed: marker("SR", 172),
        deleted: marker("D", 1),
        modified: marker("M", 3),
        untracked: marker("U", 8),
        renamed: marker("R", 172),
        conflicted: marker("CONFLICT", 9),
    }
}

fn found(path: &str) -> FoundItem {
    FoundItem { marker: None, matched: None, path: path.to_string() }
}

fn file(path: &str) -> WalkEntry {
    WalkEntry { path: path.to_string(), canonical: path.to_string(), is_dir: false, statuses: Vec::new() }
}

fn dir(path: &str) -> WalkEntry {
    WalkEntry { path: path.to_string(), canonical: path.to_string(), is_dir: true, statuses: Vec::new() }
}

/// The rendered steps as text: `(` name [label] for an open scope, the
/// name [#number] for a file, `)` for a close.
fn shape(out: &TreeOutput) -> Vec<String> {
    out.ops
        .iter()
        .map(|op| match op {
            RenderOp::OpenDir { name, label } => match label {
                Some(l) => format!("({name} [{l}]"),
                None => format!("({name}"),
            },
            RenderOp::File { name, number, .. } => match number {
                Some(n) => format!("{name} #{n}"),
                None => name.clone(),
            },
            RenderOp::Close => ")".to_string(),
        })
        .collect()
}

#[test]
fn labels_cycle_through_the_alphabet() {
    assert_eq!(directory_label(0), "a");
    assert_eq!(directory_label(1), "b");
    assert_eq!(directory_label(25), "z");
    assert_eq!(directory_label(26), "a1");
    assert_eq!(directory_label(27), "b1");
    assert_eq!(directory_label(52), "a2");
    assert_eq!(directory_label(26 * 12 + 3), "d12");
}

#[test]
fn decimal_writes_base_ten() {
    assert_eq!(decimal_string(0), "0");
    assert_eq!(decimal_string(7), "7");
    assert_eq!(decimal_string(10), "10");
    assert_eq!(decimal_string(1234567), "1234567");
    assert_eq!(decimal_string(u64::MAX), u64::MAX.to_string());
}

#[test]
fn components_skip_empty_and_dot_segments() {
    assert_eq!(split_components("/a//b/./c/"), vec!["a", "b", "c"]);
    assert_eq!(split_components("x/../y"), vec!["x", "y"]);
    assert!(split_components("/").is_empty());
    assert!(split_components("").is_empty());
}

#[test]
fn relative_components_need_the_root_as_ancestor() {
    assert_eq!(relative_components("/r/a/b.txt", "/r"), Some(vec!["a".to_string(), "b.txt".to_string()]));
    assert_eq!(relative_components("/r/a/b.txt", "/r/"), Some(vec!["a".to_string(), "b.txt".to_string()]));
    assert_eq!(relative_components("/rx/a", "/r"), None);
    assert_eq!(relative_components("r/a", "/r"), None);
    assert_eq!(join_components("/r", &vec!["a".to_string(), "b".to_string()]), "/r/a/b");
    assert_eq!(join_components("/", &vec!["a".to_string()]), "/a");
}

#[test]
fn transform_of_nothing_is_nothing_found() {
    let items: Vec<FoundItem> = Vec::new();
    assert!(matches!(items.transform("/r"), Err(NomadError::NothingFound)));
}

#[test]
fn transform_emits_each_ancestor_once_in_arrival_order() {
    let items = vec![found("/r/x/y/1.txt"), found("/r/x/2.txt"), found("/r/x/y/3.txt"), found("/elsewhere/4.txt"), found("/r/5.txt")];
    let nodes = items.transform("/r").ok().unwrap();
    let paths: Vec<&str> = nodes.iter().map(|n| n.path.as_str()).collect();
    assert_eq!(paths, vec!["/r/x", "/r/x/y", "/r/x/y/1.txt", "/r/x/2.txt", "/r/x/y/3.txt", "/r/5.txt"]);
    let kinds: Vec<bool> = nodes.iter().map(|n| n.is_dir).collect();
    assert_eq!(kinds, vec![true, true, false, false, false, false]);
    let depths: Vec<usize> = nodes.iter().map(|n| n.depth).collect();
    assert_eq!(depths, vec![1, 2, 3, 2, 3, 1]);
}

#[test]
fn scenario_three_files_two_directories() {
    let mut a = args();
    a.all_labels = true;
    let items = vec![found("/root/dir/b.txt"), found("/root/dir/sub/c.txt"), found("/root/a.txt")];
    let out = items.transform("/root").ok().unwrap().to_tree(&a, NomadMode::Normal, "/root");
    assert_eq!(shape(&out), vec!["(dir [a]", "b.txt #0", "(sub [b]", "c.txt #1", ")", ")", "a.txt #2"]);
    assert_eq!(out.num_directories, 2);
    assert_eq!(out.num_files, 3);
    assert_eq!(out.table.labeled, vec!["/root/dir", "/root/dir/sub"]);
    assert_eq!(out.table.numbered, vec!["/root/dir/b.txt", "/root/dir/sub/c.txt", "/root/a.txt"]);
    assert!(out.directory_items.is_none());
}

#[test]
fn labels_are_recorded_even_when_hidden() {
    let items = vec![found("/r/d/f.txt")];
    let out = items.transform("/r").ok().unwrap().to_tree(&args(), NomadMode::Normal, "/r");
    assert_eq!(shape(&out), vec!["(d", "f.txt", ")"]);
    assert_eq!(out.table.labeled, vec!["/r/d"]);
    assert_eq!(out.table.numbered, vec!["/r/d/f.txt"]);
}

#[test]
fn numbers_do_not_count_directories() {
    let mut a = args();
    a.numbers = true;
    let items = vec![found("/r/a/1"), found("/r/b/2"), found("/r/c/d/3")];
    let out = items.transform("/r").ok().unwrap().to_tree(&a, NomadMode::Normal, "/r");
    let numbers: Vec<usize> = out.ops.iter().filter_map(|op| match op {
        RenderOp::File { number, .. } => *number,
        _ => None,
    }).collect();
    assert_eq!(numbers, vec![0, 1, 2]);
    assert_eq!(out.num_directories, 4);
}

#[test]
fn twenty_seventh_directory_is_a1() {
    let mut a = args();
    a.label_directories = true;
    let items: Vec<FoundItem> = (0..30).map(|i| found(&format!("/r/d{i}/f"))).collect();
    let out = items.transform("/r").ok().unwrap().to_tree(&a, NomadMode::Normal, "/r");
    let labels: Vec<String> = out.ops.iter().filter_map(|op| match op {
        RenderOp::OpenDir { label, .. } => label.clone(),
        _ => None,
    }).collect();
    assert_eq!(labels[0], "a");
    assert_eq!(labels[25], "z");
    assert_eq!(labels[26], "a1");
    assert_eq!(labels[29], "d1");
}

#[test]
fn nesting_closes_several_levels_at_once() {
    let items = vec![found("/r/a/b/c/d.txt"), found("/r/a/g.txt"), found("/r/e.txt")];
    let out = items.transform("/r").ok().unwrap().to_tree(&args(), NomadMode::Normal, "/r");
    assert_eq!(shape(&out), vec!["(a", "(b", "(c", "d.txt", ")", ")", "g.txt", ")", "e.txt"]);
    let mut depth: i64 = 0;
    for op in &out.ops {
        match op {
            RenderOp::OpenDir { .. } => depth += 1,
            RenderOp::Close => depth -= 1,
            _ => {}
        }
        assert!(depth >= 0);
    }
    assert_eq!(depth, 0);
}

#[test]
fn dirs_only_leaves_files_out() {
    let mut a = args();
    a.dirs = true;
    a.all_labels = true;
    let items = vec![found("/r/a/1"), found("/r/a/b/2"), found("/r/3")];
    let out = items.transform("/r").ok().unwrap().to_tree(&a, NomadMode::Normal, "/r");
    assert_eq!(shape(&out), vec!["(a [a]", "(b [b]", ")", ")"]);
    assert_eq!(out.num_files, 0);
    assert!(out.table.numbered.is_empty());
}

#[test]
fn interactive_render_lists_root_and_every_node() {
    let items = vec![found("/r/a/1"), found("/r/2")];
    let out = items.transform("/r").ok().unwrap().to_tree(&args(), NomadMode::Interactive, "/r");
    assert_eq!(out.directory_items.unwrap(), vec!["/r", "/r/a", "/r/a/1", "/r/2"]);
}

#[test]
fn walk_without_pattern_shows_every_file() {
    let entries = vec![dir("/r/a"), file("/r/a/x.rs"), file("/r/y.md")];
    let out = walk_directory(&args(), NomadMode::Normal, &style(), "/r", &Vec::new(), &entries).ok().unwrap();
    assert_eq!(shape(&out), vec!["(a", "x.rs", ")", "y.md"]);
}

#[test]
fn pattern_keeps_only_matching_files_and_their_ancestors() {
    let mut a = args();
    a.pattern = Some("d\\.txt".to_string());
    let entries = vec![dir("/r/b"), file("/r/b/x.txt"), dir("/r/b/c"), file("/r/b/c/d.txt"), file("/r/b/c/e.txt"), dir("/r/z"), file("/r/z/w.txt")];
    let out = walk_directory(&a, NomadMode::Normal, &style(), "/r", &Vec::new(), &entries).ok().unwrap();
    assert_eq!(shape(&out), vec!["(b", "(c", "d.txt", ")", ")"]);
    match &out.ops[2] {
        RenderOp::File { matched, .. } => assert_eq!(*matched, Some((0, 5))),
        _ => panic!("expected a file"),
    }
}

#[test]
fn pattern_matching_nothing_is_nothing_found() {
    let mut a = args();
    a.pattern = Some("nope".to_string());
    let entries = vec![dir("/r/b"), file("/r/b/x.txt")];
    let r = walk_directory(&a, NomadMode::Normal, &style(), "/r", &Vec::new(), &entries);
    assert!(matches!(r, Err(NomadError::NothingFound)));
}

#[test]
fn bad_pattern_is_a_regex_error() {
    let mut a = args();
    a.pattern = Some("(unclosed".to_string());
    let entries = vec![file("/r/x.txt")];
    let r = walk_directory(&a, NomadMode::Normal, &style(), "/r", &Vec::new(), &entries);
    match r {
        Err(NomadError::RegexError(message)) => assert!(!message.is_empty()),
        _ => panic!("expected a regex error"),
    }
}

#[test]
fn walk_attaches_markers_from_directory_reports() {
    let flags = StatusFlags {
        index_new: false,
        index_modified: false,
        index_deleted: false,
        index_renamed: false,
        wt_new: false,
        wt_modified: true,
        wt_deleted: false,
        wt_renamed: false,
        conflicted: false,
    };
    let root_report = vec![StatusEntry { path: "top.txt".to_string(), status: flags }];
    let mut d = dir("/r/a");
    d.statuses = vec![StatusEntry { path: "in.txt".to_string(), status: flags }];
    let entries = vec![file("/r/top.txt"), d, file("/r/a/in.txt"), file("/r/a/clean.txt")];
    let out = walk_directory(&args(), NomadMode::Normal, &style(), "/r", &root_report, &entries).ok().unwrap();
    let markers: Vec<Option<String>> = out.ops.iter().filter_map(|op| match op {
        RenderOp::File { marker, .. } => Some(marker.clone()),
        _ => None,
    }).collect();
    let painted = "\u{1b}[38;5;3mM\u{1b}[0m".to_string();
    assert_eq!(markers, vec![Some(painted.clone()), Some(painted), None]);

    let mut quiet = args();
    quiet.no_git = true;
    let out = walk_directory(&quiet, NomadMode::Normal, &style(), "/r", &root_report, &entries).ok().unwrap();
    assert!(out.ops.iter().all(|op| !matches!(op, RenderOp::File { marker: Some(_), .. })));
}

#[test]
fn table_round_trips_through_text() {
    let table = AddressTable {
        labeled: vec!["/r/dir".to_string(), "/r/odd\nname\\x".to_string()],
        numbered: vec!["/r/a.txt".to_string(), "".to_string(), "/r/b\\n".to_string()],
    };
    let text = table.encode();
    assert_eq!(text, "D/r/dir\nD/r/odd\\nname\\\\x\nF/r/a.txt\nF\nF/r/b\\\\n\n");
    let back = AddressTable::decode(&text).unwrap();
    assert_eq!(back.labeled, table.labeled);
    assert_eq!(back.numbered, table.numbered);
}

#[test]
fn malformed_table_text_is_refused() {
    assert!(AddressTable::decode("X/r\n").is_none());
    assert!(AddressTable::decode("D/r").is_none());
    assert!(AddressTable::decode("D/r\\q\n").is_none());
    let empty = AddressTable::decode("").unwrap();
    assert!(empty.labeled.is_empty() && empty.numbered.is_empty());
}

#[test]
fn table_resolves_labels_and_numbers() {
    let labeled: Vec<String> = (0..30).map(|i| format!("/r/d{i}")).collect();
    let table = AddressTable { labeled, numbered: vec!["/r/f0".to_string(), "/r/f1".to_string()] };
    assert_eq!(table.resolve_label("a"), Some("/r/d0".to_string()));
    assert_eq!(table.resolve_label("c1"), Some("/r/d28".to_string()));
    assert_eq!(table.resolve_label("e1"), None);
    assert_eq!(table.resolve_label("a0"), None);
    assert_eq!(table.resolve_number(1), Some("/r/f1".to_string()));
    assert_eq!(table.resolve_number(2), None);
}

#[test]
fn items_resolve_by_number_or_label() {
    let table = AddressTable {
        labeled: vec!["/r/a".to_string(), "/r/b".to_string()],
        numbered: vec!["/r/0.txt".to_string(), "/r/1.txt".to_string()],
    };
    assert_eq!(table.resolve("1").ok(), Some("/r/1.txt".to_string()));
    assert_eq!(table.resolve("b").ok(), Some("/r/b".to_string()));
    assert!(matches!(table.resolve("2"), Err(NomadError::UnknownItem(item)) if item == "2"));
    assert!(matches!(table.resolve("99999999999999999999999999"), Err(NomadError::UnknownItem(_))));
    assert!(matches!(table.resolve("c"), Err(NomadError::UnknownItem(_))));
    assert!(matches!(table.resolve(""), Err(NomadError::UnknownItem(_))));
}

#[test]
fn several_items_resolve_in_order_or_fail_on_the_first_unknown() {
    let table = AddressTable {
        labeled: vec!["/r/a".to_string()],
        numbered: vec!["/r/0.txt".to_string(), "/r/1.txt".to_string()],
    };
    let items = vec!["1".to_string(), "a".to_string(), "0".to_string()];
    assert_eq!(table.resolve_all(&items).ok(), Some(vec!["/r/1.txt".to_string(), "/r/a".to_string(), "/r/0.txt".to_string()]));
    let bad = vec!["a".to_string(), "q".to_string(), "7".to_string()];
    assert!(matches!(table.resolve_all(&bad), Err(NomadError::UnknownItem(item)) if item == "q"));
    assert_eq!(table.resolve_all(&Vec::new()).ok(), Some(Vec::new()));
}

#[test]
fn bad_pattern_is_reported_before_a_walk() {
    let mut a = args();
    assert!(check_pattern(&a).is_ok());
    a.pattern = Some("[a-".to_string());
    assert!(matches!(check_pattern(&a), Err(NomadError::RegexError(_))));
    a.pattern = Some("a+".to_string());
    assert!(check_pattern(&a).is_ok());
}

#[test]
fn match_ranges_split_names_on_character_boundaries() {
    assert_eq!(split_matched("main.rs", 0, 4), Some(("", "main", ".rs")));
    assert_eq!(split_matched("main.rs", 5, 7), Some(("main.", "rs", "")));
    assert_eq!(split_matched("äb", 1, 2), None);
    assert_eq!(split_matched("äb", 2, 3), Some(("ä", "b", "")));
    assert_eq!(split_matched("ab", 1, 3), None);
    assert_eq!(split_matched("ab", 2, 1), None);
}

#[test]
fn icons_by_name_then_extension() {
    let by_name = get_icons_by_name();
    let by_extension = get_icons_by_extension();
    assert_eq!(file_icon(&by_name, &by_extension, ".vimrc"), "\u{e62b}");
    assert_eq!(file_icon(&by_name, &by_extension, "lib.rs"), "\u{e7a8}");
    assert_eq!(file_icon(&by_name, &by_extension, "noext"), "\u{f15b}");
    assert_eq!(file_icon(&by_name, &by_extension, "x.unknownext"), "\u{f15b}");
    assert_eq!(extension("a.tar.gz"), Some("gz".to_string()));
    assert_eq!(extension("a."), Some("".to_string()));
    assert_eq!(extension("abc"), None);
}
