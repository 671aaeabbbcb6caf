//! The interactive session as a state machine: a key moves it from one
//! state to the next and names the outside work to do, whose outcome is
//! handed back to it.

use vstd::prelude::*;
use vstd::string::StringExecFns;
use vstd::string::StrSliceExecFns;
use crate::cli::Args;
use crate::error::{NomadError, message_of};
use crate::paths::{join_under, views};

verus! {

/// The widget that has the focus.
#[derive(PartialEq, Eq, Structural, Clone, Copy)]
pub enum UIMode {
    /// The path segments of the root.
    Breadcrumbs,
    /// The help text.
    Help,
    /// The contents of the selected file.
    Inspect,
    /// The tree and the preview.
    Normal,
    /// A new tree is being built.
    Loading,
}

/// The popup shown over the tree.
pub enum PopupMode {
    /// No popup.
    Disabled,
    /// A failure, with its message; the next key ends the session.
    Error(String),
    /// A prompt for the file to export the tree to.
    Export,
    /// The pattern matched nothing.
    NothingFound,
    /// A prompt for a pattern.
    PatternInput,
    /// The tree is being rebuilt.
    Reloading,
    /// The settings.
    Settings,
}

/// A key press.
pub enum Key {
    Char(char),
    Enter,
    Esc,
    Backspace,
    Up,
    Down,
    Left,
    Right,
    Other,
}

/// The outside work that a key asks for.
pub enum Action {
    /// None.
    Nothing,
    /// End the session and restore the terminal.
    Quit,
    /// Rebuild the tree under the current root, then hand the outcome to
    /// `refresh`.
    Refresh,
    /// Rebuild the tree under this directory, then hand the outcome to
    /// `refresh`.
    RefreshAt(String),
    /// Load the selected entry's contents for the preview, then hand them
    /// to `cat_file`.
    Preview,
    /// Open the selected entry: rebuild under it if it is a directory,
    /// else show its contents with `inspect`.
    OpenSelected,
    /// Write the tree to this file.
    Export(String),
}

/// The number of rows in the settings popup.
pub const SETTINGS_ROWS: usize = 13;

/// The lines that the help text scrolls over before its end shows.
pub const HELP_PAGE: usize = 20;

/// The state of the session.
pub struct App {
    /// The names of the root's path segments.
    pub breadcrumbs: Vec<String>,
    /// The selected segment.
    pub breadcrumb_selected: Option<usize>,
    /// Entered prompts not yet used.
    pub collected_input: Vec<String>,
    /// The name of the directory shown.
    pub current_directory: String,
    /// The path of the root and of each entry of the tree, in order.
    pub directory_items: Vec<String>,
    /// The lines of the rendered tree.
    pub directory_tree: Vec<String>,
    /// The selected line of the tree.
    pub tree_selected: Option<usize>,
    /// The selected row of the settings.
    pub settings_selected: Option<usize>,
    /// The lines of the previewed file, if a file is selected.
    pub file_contents: Option<Vec<String>>,
    /// The popup.
    pub popup_mode: PopupMode,
    /// How far the help text or the inspected file is scrolled.
    pub scroll: u16,
    /// The focused widget.
    pub ui_mode: UIMode,
    /// What has been typed into the prompt.
    pub user_input: String,
}

/// The selection after moving down a list of `len` rows, wrapping round.
pub open spec fn next_row(sel: Option<usize>, len: nat) -> Option<usize> {
    if len == 0 {
        sel
    } else {
        match sel {
            Some(i) => if i + 1 >= len { Some(0usize) } else { Some((i + 1) as usize) },
            None => Some(0usize),
        }
    }
}

/// The selection after moving up a list of `len` rows, wrapping round.
pub open spec fn previous_row(sel: Option<usize>, len: nat) -> Option<usize> {
    if len == 0 {
        sel
    } else {
        match sel {
            Some(i) => if i == 0 || i >= len { Some((len - 1) as usize) } else { Some((i - 1) as usize) },
            None => Some(0usize),
        }
    }
}

/// The selection of a breadcrumb that starts from the last one when none is
/// selected.
pub open spec fn crumb_start(sel: Option<usize>, len: nat) -> Option<usize> {
    if sel is None && len > 0 {
        Some((len - 1) as usize)
    } else {
        sel
    }
}

/// The directory that the first `n` breadcrumbs name.
pub open spec fn crumb_path(crumbs: Seq<Seq<char>>, n: nat) -> Seq<char> {
    join_under(seq!['/'], crumbs.subrange(0, n as int))
}

/// How many breadcrumbs the directory under the selection spans.
pub open spec fn crumb_count(sel: Option<usize>, len: nat) -> nat {
    match sel {
        Some(i) => if i + 1 <= len { (i + 1) as nat } else { len },
        None => len,
    }
}

/// Every traversal and display option off.
pub open spec fn reset(a: Args) -> Args {
    Args {
        all_labels: false,
        dirs: false,
        disrespect: false,
        label_directories: false,
        hidden: false,
        max_depth: None,
        max_filesize: None,
        metadata: false,
        no_git: false,
        no_icons: false,
        numbers: false,
        pattern: None,
        plain: false,
        ..a
    }
}

/// The options after the toggle that `c` names, if `c` names one.
pub open spec fn toggled(a: Args, c: char) -> Option<Args> {
    if c == 'd' {
        Some(Args { dirs: !a.dirs, ..a })
    } else if c == 'g' {
        Some(Args { no_git: !a.no_git, ..a })
    } else if c == 'h' {
        Some(Args { hidden: !a.hidden, ..a })
    } else if c == 'i' {
        Some(Args { no_icons: !a.no_icons, ..a })
    } else if c == 'l' {
        Some(Args { label_directories: !a.label_directories, ..a })
    } else if c == 'm' {
        Some(Args { metadata: !a.metadata, ..a })
    } else if c == 'n' {
        Some(Args { numbers: !a.numbers, ..a })
    } else if c == 'p' {
        Some(Args { plain: !a.plain, ..a })
    } else if c == 'D' {
        Some(Args { disrespect: !a.disrespect, ..a })
    } else if c == 'L' {
        Some(Args { all_labels: !a.all_labels, ..a })
    } else if c == 'R' {
        Some(reset(a))
    } else if c == 'r' {
        Some(a)
    } else {
        None
    }
}

/// Whether a key taken with no popup shown moves the session from `a` with
/// options `o` to `b` with options `p` and asks for `act`; `max` is the
/// number of lines of the help text.
pub open spec fn browse_step(a: App, o: Args, key: Key, max: nat, b: App, p: Args, act: Action) -> bool {
    let crumbs = views(a.breadcrumbs@);
    let clen = a.breadcrumbs@.len();
    let tlen = a.directory_tree@.len();
    match key {
        Key::Char(c) => {
            if c == 'q' {
                b == a && p == o && act is Quit
            } else if c == '/' && a.ui_mode == UIMode::Normal {
                b == App { popup_mode: PopupMode::PatternInput, ..a } && p == o && act is Nothing
            } else if c == 's' && a.ui_mode == UIMode::Normal {
                b == App { popup_mode: PopupMode::Settings, ..a } && p == o && act is Nothing
            } else if c == 'x' && a.ui_mode == UIMode::Normal {
                b == App { popup_mode: PopupMode::Export, ..a } && p == o && act is Nothing
            } else if c == '?' {
                b == App { ui_mode: UIMode::Help, ..a } && p == o && act is Nothing
            } else if (c == 'h' || c == 'l') && a.ui_mode == UIMode::Breadcrumbs {
                let start = crumb_start(a.breadcrumb_selected, clen);
                b == App {
                    breadcrumb_selected: if c == 'h' { previous_row(start, clen) } else { next_row(start, clen) },
                    ..a
                } && p == o && act is Nothing
            } else if c == '0' && a.ui_mode == UIMode::Normal {
                b == App { tree_selected: Some(0usize), ..a } && p == o && act is Preview
            } else if c == '0' && (a.ui_mode == UIMode::Help || a.ui_mode == UIMode::Inspect) {
                b == App { scroll: 0, ..a } && p == o && act is Nothing
            } else if c == 'k' {
                up_step(a, b) && p == o && (if a.ui_mode == UIMode::Normal { act is Preview } else { act is Nothing })
            } else if c == 'j' {
                down_step(a, max, b) && p == o && (if a.ui_mode == UIMode::Normal { act is Preview } else { act is Nothing })
            } else if a.ui_mode == UIMode::Normal && toggled(o, c) is Some {
                b == App { popup_mode: PopupMode::Reloading, ..a } && p == toggled(o, c)->Some_0 && act is Refresh
            } else {
                b == a && p == o && act is Nothing
            }
        },
        Key::Esc => {
            p == o && act is Nothing && if a.ui_mode == UIMode::Breadcrumbs {
                b == App {
                    breadcrumb_selected: if clen > 0 { Some((clen - 1) as usize) } else { a.breadcrumb_selected },
                    ui_mode: UIMode::Normal,
                    ..a
                }
            } else if a.ui_mode == UIMode::Help || a.ui_mode == UIMode::Inspect {
                b == App { ui_mode: UIMode::Normal, scroll: 0, ..a }
            } else if a.ui_mode == UIMode::Normal {
                b == App { ui_mode: UIMode::Breadcrumbs, ..a }
            } else {
                b == a
            }
        },
        Key::Enter => {
            p == o && if a.ui_mode == UIMode::Breadcrumbs {
                b == App { popup_mode: PopupMode::Reloading, ui_mode: UIMode::Normal, ..a } && act is RefreshAt
                    && act->RefreshAt_0@ == crumb_path(crumbs, crumb_count(a.breadcrumb_selected, clen))
            } else if a.ui_mode == UIMode::Normal {
                b == a && act is OpenSelected
            } else {
                b == a && act is Nothing
            }
        },
        Key::Left | Key::Right => {
            p == o && act is Nothing && if a.ui_mode == UIMode::Breadcrumbs {
                let start = crumb_start(a.breadcrumb_selected, clen);
                b == App {
                    breadcrumb_selected: if key is Left { previous_row(start, clen) } else { next_row(start, clen) },
                    ..a
                }
            } else {
                b == a
            }
        },
        Key::Up => up_step(a, b) && p == o && (if a.ui_mode == UIMode::Normal { act is Preview } else { act is Nothing }),
        Key::Down => down_step(a, max, b) && p == o && (if a.ui_mode == UIMode::Normal { act is Preview } else { act is Nothing }),
        _ => b == a && p == o && act is Nothing,
    }
}

/// Moving up: the help text or the file scrolls back by a line, the tree
/// selection moves up.
pub open spec fn up_step(a: App, b: App) -> bool {
    if a.ui_mode == UIMode::Help || a.ui_mode == UIMode::Inspect {
        b == App { scroll: if a.scroll > 0 { (a.scroll - 1) as u16 } else { 0 }, ..a }
    } else if a.ui_mode == UIMode::Normal {
        b == App { tree_selected: previous_row(a.tree_selected, a.directory_tree@.len()), ..a }
    } else {
        b == a
    }
}

/// Moving down: the help text scrolls on while its end is not in view, the
/// file scrolls on, the tree selection moves down.
pub open spec fn down_step(a: App, max: nat, b: App) -> bool {
    if a.ui_mode == UIMode::Help {
        b == App { scroll: if a.scroll + HELP_PAGE < max && a.scroll < u16::MAX { (a.scroll + 1) as u16 } else { a.scroll }, ..a }
    } else if a.ui_mode == UIMode::Inspect {
        b == App { scroll: if a.scroll < u16::MAX { (a.scroll + 1) as u16 } else { a.scroll }, ..a }
    } else if a.ui_mode == UIMode::Normal {
        b == App { tree_selected: next_row(a.tree_selected, a.directory_tree@.len()), ..a }
    } else {
        b == a
    }
}

/// Whether a key moves the session from `a` with options `o` to `b` with
/// options `p` and asks for `act`.
pub open spec fn key_step(a: App, o: Args, key: Key, max: nat, b: App, p: Args, act: Action) -> bool {
    match a.popup_mode {
        PopupMode::Disabled => browse_step(a, o, key, max, b, p, act),
        PopupMode::Error(_) => b == a && p == o && act is Quit,
        PopupMode::Export | PopupMode::PatternInput => match key {
            Key::Backspace => b == App { user_input: b.user_input, ..a }
                && b.user_input@ == (if a.user_input@.len() > 0 { a.user_input@.drop_last() } else { a.user_input@ })
                && p == o && act is Nothing,
            Key::Char(c) => b == App { user_input: b.user_input, ..a } && b.user_input@ == a.user_input@.push(c)
                && p == o && act is Nothing,
            Key::Enter => if a.popup_mode is PatternInput {
                b == App { user_input: b.user_input, collected_input: b.collected_input, popup_mode: PopupMode::Reloading, ..a }
                    && b.user_input@.len() == 0 && b.collected_input@ == a.collected_input@
                    && p == Args { pattern: p.pattern, ..o }
                    && p.pattern is Some && p.pattern->Some_0@ == a.user_input@
                    && act is Refresh
            } else {
                b == App { user_input: b.user_input, popup_mode: PopupMode::Disabled, ..a }
                    && b.user_input@.len() == 0
                    && p == o && act is Export && act->Export_0@ == a.user_input@
            },
            Key::Esc => b == App { user_input: b.user_input, popup_mode: PopupMode::Disabled, ..a }
                && b.user_input@.len() == 0 && p == o && act is Nothing,
            _ => b == a && p == o && act is Nothing,
        },
        PopupMode::NothingFound => p == o && match key {
            Key::Char(c) => if c == 'q' {
                b == a && act is Quit
            } else {
                b == App { popup_mode: PopupMode::Disabled, ..a } && act is Nothing
            },
            _ => b == App { popup_mode: PopupMode::Disabled, ..a } && act is Nothing,
        },
        PopupMode::Settings => p == o && match key {
            Key::Char(c) => if c == 'q' {
                b == a && act is Quit
            } else if c == 's' {
                b == App { popup_mode: PopupMode::Disabled, ..a } && act is Nothing
            } else if c == 'k' {
                b == App { settings_selected: previous_row(a.settings_selected, SETTINGS_ROWS as nat), ..a } && act is Nothing
            } else if c == 'j' {
                b == App { settings_selected: next_row(a.settings_selected, SETTINGS_ROWS as nat), ..a } && act is Nothing
            } else if c == '0' {
                b == App { scroll: 0, ..a } && act is Nothing
            } else {
                b == a && act is Nothing
            },
            Key::Up => b == App { settings_selected: previous_row(a.settings_selected, SETTINGS_ROWS as nat), ..a } && act is Nothing,
            Key::Down => b == App { settings_selected: next_row(a.settings_selected, SETTINGS_ROWS as nat), ..a } && act is Nothing,
            _ => b == a && act is Nothing,
        },
        _ => b == a && p == o && act is Nothing,
    }
}

fn next_sel(sel: Option<usize>, len: usize) -> (r: Option<usize>)
    ensures
        r == next_row(sel, len as nat),
{
    if len == 0 {
        sel
    } else {
        match sel {
            Some(i) => if i >= len - 1 { Some(0) } else { Some(i + 1) },
            None => Some(0),
        }
    }
}

fn previous_sel(sel: Option<usize>, len: usize) -> (r: Option<usize>)
    ensures
        r == previous_row(sel, len as nat),
{
    if len == 0 {
        sel
    } else {
        match sel {
            Some(i) => if i == 0 || i >= len { Some(len - 1) } else { Some(i - 1) },
            None => Some(0),
        }
    }
}

fn start_crumb(sel: Option<usize>, len: usize) -> (r: Option<usize>)
    ensures
        r == crumb_start(sel, len as nat),
{
    if sel.is_none() && len > 0 {
        Some(len - 1)
    } else {
        sel
    }
}

/// Relies on `String::pop`: the last character, if any, is removed.
#[verifier::external_body]
fn pop_char(s: &mut String)
    ensures
        final(s)@ == (if old(s)@.len() > 0 { old(s)@.drop_last() } else { old(s)@ }),
{
    s.pop();
}

impl App {
    /// A session showing a freshly built tree: its lines, the paths of its
    /// root and entries, and the root's breadcrumbs, with the first line
    /// selected and nothing else open.
    pub fn new(directory_tree: Vec<String>, directory_items: Vec<String>, breadcrumbs: Vec<String>, current_directory: String) -> (r: App)
        ensures
            r.directory_tree == directory_tree,
            r.directory_items == directory_items,
            r.breadcrumbs == breadcrumbs,
            r.current_directory == current_directory,
            r.tree_selected == Some(0usize),
            r.breadcrumb_selected is None,
            r.settings_selected is None,
            r.collected_input@.len() == 0,
            r.file_contents is None,
            r.popup_mode is Disabled,
            r.scroll == 0,
            r.ui_mode == UIMode::Normal,
            r.user_input@.len() == 0,
    {
        App {
            breadcrumbs,
            breadcrumb_selected: None,
            collected_input: Vec::new(),
            current_directory,
            directory_items,
            directory_tree,
            tree_selected: Some(0),
            settings_selected: None,
            file_contents: None,
            popup_mode: PopupMode::Disabled,
            scroll: 0,
            ui_mode: UIMode::Normal,
            user_input: String::new(),
        }
    }

    /// Takes the last entered prompt as the pattern and asks for a rebuild.
    pub fn pattern_search(&mut self, args: &mut Args) -> (r: Action)
        ensures
            final(self).popup_mode is Reloading,
            final(self).collected_input@ == (if old(self).collected_input@.len() > 0 {
                old(self).collected_input@.drop_last()
            } else {
                old(self).collected_input@
            }),
            *final(self) == (App { popup_mode: final(self).popup_mode, collected_input: final(self).collected_input, ..*old(self) }),
            *final(args) == (Args { pattern: final(args).pattern, ..*old(args) }),
            final(args).pattern == (if old(self).collected_input@.len() > 0 {
                Some(old(self).collected_input@.last())
            } else {
                None::<String>
            }),
            r is Refresh,
    {
        self.popup_mode = PopupMode::Reloading;
        args.pattern = self.collected_input.pop();
        Action::Refresh
    }

    /// Handles one key press: the new state and options are those that
    /// `key_step` gives, and the result names the outside work to do.
    pub fn handle_key(&mut self, args: &mut Args, key: Key, max_help_scroll: usize) -> (r: Action)
        ensures
            key_step(*old(self), *old(args), key, max_help_scroll as nat, *final(self), *final(args), r),
    {
        match self.popup_mode {
            PopupMode::Disabled => self.browse_key(args, key, max_help_scroll),
            PopupMode::Error(_) => Action::Quit,
            PopupMode::Export | PopupMode::PatternInput => match key {
                Key::Backspace => {
                    pop_char(&mut self.user_input);
                    Action::Nothing
                },
                Key::Char(c) => {
                    crate::table::push_char(&mut self.user_input, c);
                    Action::Nothing
                },
                Key::Enter => {
                    let entered = self.user_input.clone();
                    self.user_input = String::new();
                    match self.popup_mode {
                        PopupMode::PatternInput => {
                            self.collected_input.push(entered);
                            let r = self.pattern_search(args);
                            proof {
                                assert(self.collected_input@ =~= old(self).collected_input@);
                            }
                            r
                        },
                        _ => {
                            self.popup_mode = PopupMode::Disabled;
                            Action::Export(entered)
                        },
                    }
                },
                Key::Esc => {
                    self.user_input = String::new();
                    self.popup_mode = PopupMode::Disabled;
                    Action::Nothing
                },
                _ => Action::Nothing,
            },
            PopupMode::NothingFound => match key {
                Key::Char(c) => {
                    if c == 'q' {
                        Action::Quit
                    } else {
                        self.popup_mode = PopupMode::Disabled;
                        Action::Nothing
                    }
                },
                _ => {
                    self.popup_mode = PopupMode::Disabled;
                    Action::Nothing
                },
            },
            PopupMode::Settings => match key {
                Key::Char(c) => {
                    if c == 'q' {
                        Action::Quit
                    } else if c == 's' {
                        self.popup_mode = PopupMode::Disabled;
                        Action::Nothing
                    } else if c == 'k' {
                        self.settings_selected = previous_sel(self.settings_selected, SETTINGS_ROWS);
                        Action::Nothing
                    } else if c == 'j' {
                        self.settings_selected = next_sel(self.settings_selected, SETTINGS_ROWS);
                        Action::Nothing
                    } else if c == '0' {
                        self.scroll = 0;
                        Action::Nothing
                    } else {
                        Action::Nothing
                    }
                },
                Key::Up => {
                    self.settings_selected = previous_sel(self.settings_selected, SETTINGS_ROWS);
                    Action::Nothing
                },
                Key::Down => {
                    self.settings_selected = next_sel(self.settings_selected, SETTINGS_ROWS);
                    Action::Nothing
                },
                _ => Action::Nothing,
            },
            _ => Action::Nothing,
        }
    }

    fn move_up(&mut self) -> (r: Action)
        ensures
            up_step(*old(self), *final(self)),
            if old(self).ui_mode == UIMode::Normal { r is Preview } else { r is Nothing },
    {
        if self.ui_mode == UIMode::Help || self.ui_mode == UIMode::Inspect {
            if self.scroll > 0 {
                self.scroll = self.scroll - 1;
            }
            Action::Nothing
        } else if self.ui_mode == UIMode::Normal {
            self.tree_selected = previous_sel(self.tree_selected, self.directory_tree.len());
            Action::Preview
        } else {
            Action::Nothing
        }
    }

    fn move_down(&mut self, max_help_scroll: usize) -> (r: Action)
        ensures
            down_step(*old(self), max_help_scroll as nat, *final(self)),
            if old(self).ui_mode == UIMode::Normal { r is Preview } else { r is Nothing },
    {
        if self.ui_mode == UIMode::Help {
            if self.scroll < u16::MAX && (self.scroll as usize) < max_help_scroll
                && (self.scroll as usize) + HELP_PAGE < max_help_scroll {
                self.scroll = self.scroll + 1;
            }
            Action::Nothing
        } else if self.ui_mode == UIMode::Inspect {
            if self.scroll < u16::MAX {
                self.scroll = self.scroll + 1;
            }
            Action::Nothing
        } else if self.ui_mode == UIMode::Normal {
            self.tree_selected = next_sel(self.tree_selected, self.directory_tree.len());
            Action::Preview
        } else {
            Action::Nothing
        }
    }

    fn browse_key(&mut self, args: &mut Args, key: Key, max_help_scroll: usize) -> (r: Action)
        requires
            old(self).popup_mode is Disabled,
        ensures
            browse_step(*old(self), *old(args), key, max_help_scroll as nat, *final(self), *final(args), r),
    {
        let clen = self.breadcrumbs.len();
        let normal = self.ui_mode == UIMode::Normal;
        match key {
            Key::Char(c) => {
                if c == 'q' {
                    Action::Quit
                } else if c == '/' && normal {
                    self.popup_mode = PopupMode::PatternInput;
                    Action::Nothing
                } else if c == 's' && normal {
                    self.popup_mode = PopupMode::Settings;
                    Action::Nothing
                } else if c == 'x' && normal {
                    self.popup_mode = PopupMode::Export;
                    Action::Nothing
                } else if c == '?' {
                    self.ui_mode = UIMode::Help;
                    Action::Nothing
                } else if (c == 'h' || c == 'l') && self.ui_mode == UIMode::Breadcrumbs {
                    let start = start_crumb(self.breadcrumb_selected, clen);
                    self.breadcrumb_selected = if c == 'h' { previous_sel(start, clen) } else { next_sel(start, clen) };
                    Action::Nothing
                } else if c == '0' && normal {
                    self.tree_selected = Some(0);
                    Action::Preview
                } else if c == '0' && (self.ui_mode == UIMode::Help || self.ui_mode == UIMode::Inspect) {
                    self.scroll = 0;
                    Action::Nothing
                } else if c == 'k' {
                    self.move_up()
                } else if c == 'j' {
                    self.move_down(max_help_scroll)
                } else if normal && toggle(args, c) {
                    self.popup_mode = PopupMode::Reloading;
                    Action::Refresh
                } else {
                    Action::Nothing
                }
            },
            Key::Esc => {
                if self.ui_mode == UIMode::Breadcrumbs {
                    if clen > 0 {
                        self.breadcrumb_selected = Some(clen - 1);
                    }
                    self.ui_mode = UIMode::Normal;
                } else if self.ui_mode == UIMode::Help || self.ui_mode == UIMode::Inspect {
                    self.ui_mode = UIMode::Normal;
                    self.scroll = 0;
                } else if normal {
                    self.ui_mode = UIMode::Breadcrumbs;
                }
                Action::Nothing
            },
            Key::Enter => {
                if self.ui_mode == UIMode::Breadcrumbs {
                    let n = match self.breadcrumb_selected {
                        Some(i) => if i < clen { i + 1 } else { clen },
                        None => clen,
                    };
                    let path = self.crumbs_path(n);
                    self.popup_mode = PopupMode::Reloading;
                    self.ui_mode = UIMode::Normal;
                    Action::RefreshAt(path)
                } else if normal {
                    Action::OpenSelected
                } else {
                    Action::Nothing
                }
            },
            Key::Left | Key::Right => {
                if self.ui_mode == UIMode::Breadcrumbs {
                    let start = start_crumb(self.breadcrumb_selected, clen);
                    self.breadcrumb_selected = match key {
                        Key::Left => previous_sel(start, clen),
                        _ => next_sel(start, clen),
                    };
                }
                Action::Nothing
            },
            Key::Up => self.move_up(),
            Key::Down => self.move_down(max_help_scroll),
            _ => Action::Nothing,
        }
    }

    /// The directory that the first `n` breadcrumbs name.
    fn crumbs_path(&self, n: usize) -> (r: String)
        requires
            n <= self.breadcrumbs.len(),
        ensures
            r@ == crumb_path(views(self.breadcrumbs@), n as nat),
    {
        let mut first: Vec<String> = Vec::new();
        let mut i: usize = 0;
        while i < n
            invariant
                i <= n <= self.breadcrumbs.len(),
                views(first@) =~= views(self.breadcrumbs@).subrange(0, i as int),
            decreases n - i,
        {
            let ghost before = first@;
            first.push(self.breadcrumbs[i].clone());
            proof {
                assert(views(first@) =~= views(before).push(views(self.breadcrumbs@)[i as int]));
            }
            i = i + 1;
        }
        let root = "/";
        proof {
            reveal_strlit("/");
            assert(root@ =~= seq!['/']);
            assert(views(first@) =~= views(self.breadcrumbs@).subrange(0, n as int));
        }
        crate::paths::join_components(root, &first)
    }
}

/// A rebuilt tree: its lines, the paths of its root and entries, and the
/// root's breadcrumbs.
pub struct TreeView {
    pub directory_tree: Vec<String>,
    pub directory_items: Vec<String>,
    pub breadcrumbs: Vec<String>,
}

/// Whether the outcome of a rebuild moves the session from `a` with
/// options `o` to `b` with options `p`. The preview and scrolling are reset
/// in any case. A new tree replaces the old one, nothing selected, and the
/// popup is closed, the focus staying where it was; a pattern that matched nothing
/// is dropped and said so; any other failure is shown.
pub open spec fn refreshed(a: App, o: Args, outcome: Result<TreeView, NomadError>, b: App, p: Args) -> bool {
    let reset = App { file_contents: None, scroll: 0, ..a };
    match outcome {
        Ok(t) => p == o && b == App {
            directory_tree: t.directory_tree,
            directory_items: t.directory_items,
            breadcrumbs: t.breadcrumbs,
            tree_selected: None,
            breadcrumb_selected: None,
            settings_selected: None,
            popup_mode: PopupMode::Disabled,
            ..reset
        },
        Err(NomadError::NothingFound) => p == Args { pattern: None, ..o }
            && b == App { popup_mode: PopupMode::NothingFound, ..reset },
        Err(e) => p == o && b == App { popup_mode: b.popup_mode, ..reset }
            && b.popup_mode is Error && b.popup_mode->Error_0@ == message_of(e),
    }
}

/// The lines of the first `n` characters of `text`: those finished by a
/// line break, and the one being read.
pub open spec fn lines_from(text: Seq<char>, n: nat) -> (Seq<Seq<char>>, Seq<char>)
    decreases n,
{
    if n == 0 {
        (Seq::empty(), Seq::empty())
    } else {
        let (done, cur) = lines_from(text, (n - 1) as nat);
        if text[n - 1] == '\n' {
            (done.push(cur), Seq::empty())
        } else {
            (done, cur.push(text[n - 1]))
        }
    }
}

/// The lines of `text`: the pieces between line breaks, the last one
/// included even when empty.
pub open spec fn lines_of(text: Seq<char>) -> Seq<Seq<char>> {
    let (done, cur) = lines_from(text, text.len());
    done.push(cur)
}

/// Splits text into its lines.
pub fn split_lines(text: &str) -> (r: Vec<String>)
    ensures
        views(r@) == lines_of(text@),
{
    let n = text.unicode_len();
    let mut done: Vec<String> = Vec::new();
    let mut start: usize = 0;
    let mut i: usize = 0;
    while i < n
        invariant
            n == text@.len(),
            start <= i <= n,
            views(done@) == lines_from(text@, i as nat).0,
            text@.subrange(start as int, i as int) == lines_from(text@, i as nat).1,
        decreases n - i,
    {
        let c = text.get_char(i);
        proof {
            assert(text@.subrange(start as int, i + 1) == text@.subrange(start as int, i as int).push(text@[i as int]));
        }
        if c == '\n' {
            let ghost before = done@;
            done.push(String::from_str(text.substring_char(start, i)));
            proof {
                assert(views(done@) =~= views(before).push(text@.subrange(start as int, i as int)));
            }
            start = i + 1;
        }
        i = i + 1;
    }
    let ghost before = done@;
    done.push(String::from_str(text.substring_char(start, n)));
    proof {
        assert(views(done@) =~= views(before).push(text@.subrange(start as int, n as int)));
    }
    done
}

/// The path of the selected entry of the tree, if any.
pub open spec fn self_selected(a: App) -> Option<Seq<char>> {
    match a.tree_selected {
        Some(i) => if i < a.directory_items@.len() { Some(a.directory_items@[i as int]@) } else { None },
        None => None,
    }
}

impl App {
    /// Takes the outcome of a rebuild, as `refreshed` states.
    pub fn refresh(&mut self, args: &mut Args, outcome: Result<TreeView, NomadError>)
        ensures
            refreshed(*old(self), *old(args), outcome, *final(self), *final(args)),
    {
        self.file_contents = None;
        self.scroll = 0;
        match outcome {
            Ok(t) => {
                self.directory_tree = t.directory_tree;
                self.directory_items = t.directory_items;
                self.breadcrumbs = t.breadcrumbs;
                self.tree_selected = None;
                self.breadcrumb_selected = None;
                self.settings_selected = None;
                self.popup_mode = PopupMode::Disabled;
            },
            Err(e) => {
                match e {
                    NomadError::NothingFound => {
                        args.pattern = None;
                        self.popup_mode = PopupMode::NothingFound;
                    },
                    _ => {
                        self.popup_mode = PopupMode::Error(e.message());
                    },
                }
            },
        }
    }

    /// The path of the selected entry of the tree, if any.
    pub fn selected_item(&self) -> (r: Option<String>)
        ensures
            crate::transform::opt_view(r) == self_selected(*self),
    {
        match self.tree_selected {
            Some(i) => if i < self.directory_items.len() {
                Some(self.directory_items[i].clone())
            } else {
                None
            },
            None => None,
        }
    }

    /// Shows what was read of the selected entry in the preview: the lines
    /// of a file, nothing for a directory. A failed read leaves the preview
    /// as it was and shows the error.
    pub fn cat_file(&mut self, contents: Result<Option<String>, NomadError>)
        ensures
            match contents {
                Ok(Some(t)) => *final(self) == (App { file_contents: final(self).file_contents, ..*old(self) })
                    && final(self).file_contents is Some
                    && views(final(self).file_contents->Some_0@) == lines_of(t@),
                Ok(None) => *final(self) == (App { file_contents: None, ..*old(self) }),
                Err(e) => *final(self) == (App { popup_mode: final(self).popup_mode, ..*old(self) })
                    && final(self).popup_mode is Error && final(self).popup_mode->Error_0@ == message_of(e),
            },
    {
        match contents {
            Ok(Some(t)) => {
                self.file_contents = Some(split_lines(t.as_str()));
            },
            Ok(None) => {
                self.file_contents = None;
            },
            Err(e) => {
                self.popup_mode = PopupMode::Error(e.message());
            },
        }
    }

    /// Opens the selected entry, as Enter does on the tree: a directory
    /// becomes the new root, to be rebuilt under; a file gets the focus, its
    /// contents to be loaded. With no entry selected nothing happens.
    pub fn open_selected(&mut self, is_dir: bool) -> (r: Action)
        ensures
            match self_selected(*old(self)) {
                Some(path) => if is_dir {
                    *final(self) == (App { popup_mode: PopupMode::Reloading, ..*old(self) })
                        && r is RefreshAt && r->RefreshAt_0@ == path
                } else {
                    *final(self) == (App { ui_mode: UIMode::Inspect, ..*old(self) }) && r is Preview
                },
                None => *final(self) == *old(self) && r is Nothing,
            },
    {
        match self.selected_item() {
            Some(path) => {
                if is_dir {
                    self.popup_mode = PopupMode::Reloading;
                    Action::RefreshAt(path)
                } else {
                    self.ui_mode = UIMode::Inspect;
                    Action::Preview
                }
            },
            None => Action::Nothing,
        }
    }

    /// Takes the outcome of writing the tree to a file: a failure is shown.
    pub fn exported(&mut self, outcome: Result<(), NomadError>)
        ensures
            match outcome {
                Ok(()) => *final(self) == *old(self),
                Err(e) => *final(self) == (App { popup_mode: final(self).popup_mode, ..*old(self) })
                    && final(self).popup_mode is Error && final(self).popup_mode->Error_0@ == message_of(e),
            },
    {
        match outcome {
            Ok(()) => {},
            Err(e) => {
                self.popup_mode = PopupMode::Error(e.message());
            },
        }
    }

    /// Gives the selected file the focus, to scroll through its contents.
    pub fn inspect(&mut self)
        ensures
            *final(self) == (App { ui_mode: UIMode::Inspect, ..*old(self) }),
    {
        self.ui_mode = UIMode::Inspect;
    }
}

/// Toggling hidden entries while browsing the tree asks for exactly one
/// rebuild, with the option flipped; once the new tree is in, the tree has
/// the focus and no popup is shown.
pub proof fn lemma_hidden_toggle(
    a: App,
    o: Args,
    max: nat,
    b: App,
    p: Args,
    act: Action,
    tree: TreeView,
    c: App,
    q: Args,
)
    requires
        a.ui_mode == UIMode::Normal,
        a.popup_mode is Disabled,
        key_step(a, o, Key::Char('h'), max, b, p, act),
        refreshed(b, p, Ok(tree), c, q),
    ensures
        act is Refresh,
        b.popup_mode is Reloading,
        p == (Args { hidden: !o.hidden, ..o }),
        q == p,
        c.ui_mode == UIMode::Normal,
        c.popup_mode is Disabled,
{
}

/// The breadcrumbs of a directory: the names along its canonical path.
pub fn get_breadcrumbs(canonical: &str) -> (r: Vec<String>)
    ensures
        views(r@) == crate::paths::components(canonical@),
{
    crate::paths::split_components(canonical)
}

/// A row of the settings popup: the option's name, its value, and whether
/// it is on.
pub struct SettingRow {
    pub label: String,
    pub value: String,
    pub enabled: bool,
}

/// How a switch is shown.
pub open spec fn bool_text(b: bool) -> Seq<char> {
    if b { "true"@ } else { "false"@ }
}

/// How an optional value is shown.
pub open spec fn opt_text(o: Option<Seq<char>>) -> Seq<char> {
    match o {
        Some(t) => t,
        None => "None"@,
    }
}

/// The rows of the settings popup, in this order: all labels, dirs,
/// disrespect, hidden, label directories, max depth, max filesize,
/// metadata, no Git, no icons, numbered, pattern, plain. A switch shows
/// `true` or `false`; a limit or the pattern shows its value or `None`, and
/// is on when set.
pub open spec fn settings_of(a: Args) -> Seq<(Seq<char>, Seq<char>, bool)> {
    seq![
        (" all labels"@, bool_text(a.all_labels), a.all_labels),
        (" dirs"@, bool_text(a.dirs), a.dirs),
        (" disrespect"@, bool_text(a.disrespect), a.disrespect),
        (" hidden"@, bool_text(a.hidden), a.hidden),
        (" label directories"@, bool_text(a.label_directories), a.label_directories),
        (" max depth"@, opt_text(match a.max_depth { Some(d) => Some(crate::label::decimal(d as nat)), None => None }), a.max_depth is Some),
        (" max filesize"@, opt_text(match a.max_filesize { Some(d) => Some(crate::label::decimal(d as nat)), None => None }), a.max_filesize is Some),
        (" metadata"@, bool_text(a.metadata), a.metadata),
        (" no Git"@, bool_text(a.no_git), a.no_git),
        (" no icons"@, bool_text(a.no_icons), a.no_icons),
        (" numbered"@, bool_text(a.numbers), a.numbers),
        (" pattern"@, opt_text(match a.pattern { Some(p) => Some(p@), None => None }), a.pattern is Some),
        (" plain"@, bool_text(a.plain), a.plain),
    ]
}

/// The rows as (name, value, on) triples.
pub open spec fn row_views(v: Seq<SettingRow>) -> Seq<(Seq<char>, Seq<char>, bool)> {
    v.map_values(|r: SettingRow| (r.label@, r.value@, r.enabled))
}

fn switch_row(label: &str, on: bool) -> (r: SettingRow)
    ensures
        r.label@ == label@,
        r.value@ == bool_text(on),
        r.enabled == on,
{
    let value = if on { String::from_str("true") } else { String::from_str("false") };
    SettingRow { label: String::from_str(label), value, enabled: on }
}

fn value_row(label: &str, value: Option<String>) -> (r: SettingRow)
    ensures
        r.label@ == label@,
        r.value@ == opt_text(crate::transform::opt_view(value)),
        r.enabled == value is Some,
{
    let enabled = value.is_some();
    let value = match value {
        Some(v) => v,
        None => String::from_str("None"),
    };
    SettingRow { label: String::from_str(label), value, enabled }
}

/// The rows of the settings popup, as `settings_of` states.
#[verifier::rlimit(50)]
pub fn get_settings(args: &Args) -> (r: Vec<SettingRow>)
    ensures
        row_views(r@) == settings_of(*args),
{
    let mut rows: Vec<SettingRow> = Vec::new();
    rows.push(switch_row(" all labels", args.all_labels));
    rows.push(switch_row(" dirs", args.dirs));
    rows.push(switch_row(" disrespect", args.disrespect));
    rows.push(switch_row(" hidden", args.hidden));
    rows.push(switch_row(" label directories", args.label_directories));
    let depth = match args.max_depth {
        Some(d) => Some(crate::label::decimal_string(d as u64)),
        None => None,
    };
    rows.push(value_row(" max depth", depth));
    let size = match args.max_filesize {
        Some(d) => Some(crate::label::decimal_string(d)),
        None => None,
    };
    rows.push(value_row(" max filesize", size));
    rows.push(switch_row(" metadata", args.metadata));
    rows.push(switch_row(" no Git", args.no_git));
    rows.push(switch_row(" no icons", args.no_icons));
    rows.push(switch_row(" numbered", args.numbers));
    let pattern = match &args.pattern {
        Some(p) => Some(p.clone()),
        None => None,
    };
    rows.push(value_row(" pattern", pattern));
    rows.push(switch_row(" plain", args.plain));
    proof {
        assert(row_views(rows@) =~= settings_of(*args));
    }
    rows
}

/// Applies the toggle that `c` names to the options; false where `c` names
/// none.
fn toggle(args: &mut Args, c: char) -> (r: bool)
    ensures
        r == (toggled(*old(args), c) is Some),
        r ==> *final(args) == toggled(*old(args), c)->Some_0,
        !r ==> *final(args) == *old(args),
{
    if c == 'd' {
        args.dirs = !args.dirs;
    } else if c == 'g' {
        args.no_git = !args.no_git;
    } else if c == 'h' {
        args.hidden = !args.hidden;
    } else if c == 'i' {
        args.no_icons = !args.no_icons;
    } else if c == 'l' {
        args.label_directories = !args.label_directories;
    } else if c == 'm' {
        args.metadata = !args.metadata;
    } else if c == 'n' {
        args.numbers = !args.numbers;
    } else if c == 'p' {
        args.plain = !args.plain;
    } else if c == 'D' {
        args.disrespect = !args.disrespect;
    } else if c == 'L' {
        args.all_labels = !args.all_labels;
    } else if c == 'R' {
        reset_args(args);
    } else if c == 'r' {
    } else {
        return false;
    }
    true
}

/// Turns every traversal and display option off.
pub fn reset_args(args: &mut Args)
    ensures
        *final(args) == reset(*old(args)),
{
    args.all_labels = false;
    args.dirs = false;
    args.disrespect = false;
    args.label_directories = false;
    args.hidden = false;
    args.max_depth = None;
    args.max_filesize = None;
    args.metadata = false;
    args.no_git = false;
    args.no_icons = false;
    args.numbers = false;
    args.pattern = None;
    args.plain = false;
}

} // verus!
