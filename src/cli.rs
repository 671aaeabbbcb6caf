//! The options that select what a render shows, and the follow-up commands.

use vstd::prelude::*;

verus! {

/// Every option of an invocation.
pub struct Args {
    /// Show both file numbers and directory labels.
    pub all_labels: bool,
    /// The directory to show.
    pub directory: Option<String>,
    /// Show directories only.
    pub dirs: bool,
    /// Disregard every ignore rule.
    pub disrespect: bool,
    /// Write the tree to this file.
    pub export: Option<String>,
    /// Label directories.
    pub label_directories: bool,
    /// Show hidden entries.
    pub hidden: bool,
    /// The deepest level to descend to.
    pub max_depth: Option<usize>,
    /// The largest file, in bytes, to show.
    pub max_filesize: Option<u64>,
    /// Show permissions, owner, size and modification time.
    pub metadata: bool,
    /// Leave out version-control markers.
    pub no_git: bool,
    /// Leave out icons.
    pub no_icons: bool,
    /// Number files.
    pub numbers: bool,
    /// Show only files whose name matches this pattern.
    pub pattern: Option<String>,
    /// No icons, markers or colours.
    pub plain: bool,
    /// Print counts and time after the tree.
    pub statistics: bool,
    /// A follow-up command instead of a render.
    pub sub_commands: Option<SubCommands>,
}

/// Follow-up commands, which address entries of the last render.
pub enum SubCommands {
    /// Show files with a pager.
    Bat { item_labels: Vec<String> },
    /// Open files in an editor.
    Edit { item_labels: Vec<String> },
    /// Filter by file type.
    Filetype(FileTypeOptions),
    /// Version-control commands.
    Git(GitOptions),
    /// Published releases.
    Releases(ReleaseOptions),
    /// Replace the installed program by the latest release.
    Update,
}

/// Version-control commands.
pub enum GitOptions {
    /// Stage the entries with these labels or numbers.
    Add { item_labels: Vec<String> },
    /// Commit, with an optional message.
    Commit { message: Option<String> },
    /// Show the changes of the entries with these labels or numbers.
    Diff { item_labels: Vec<String> },
    /// Show only changed entries.
    Status,
}

/// File type filters.
pub enum FileTypeOptions {
    /// Show only files of these types.
    Match { filetypes: Vec<String> },
    /// Leave out files of these types.
    Negate { filetypes: Vec<String> },
    /// List the known file types, or those matching a name.
    Options { filetype: Option<String> },
}

/// Release listings.
pub enum ReleaseOptions {
    /// Every release.
    All,
    /// One release, or the latest.
    Info { release_version: Option<String> },
}

/// Whether directory labels are shown.
pub open spec fn shows_labels(args: &Args) -> bool {
    args.label_directories || args.all_labels
}

/// Whether file numbers are shown.
pub open spec fn shows_numbers(args: &Args) -> bool {
    args.numbers || args.all_labels
}

} // verus!
