//! Icons for files, by extension and by name.

use vstd::prelude::*;
use vstd::string::StringExecFns;
use vstd::string::StrSliceExecFns;
use crate::paths::same_text;

verus! {

/// Keys and their icons, in a fixed order; each key appears once. A list
/// rather than a hash map keyed by `&str`, whose lookups could not be
/// stated and proved.
pub struct IconMap {
    pub entries: Vec<(&'static str, &'static str)>,
}

impl View for IconMap {
    type V = Seq<(Seq<char>, Seq<char>)>;

    open spec fn view(&self) -> Seq<(Seq<char>, Seq<char>)> {
        self.entries@.map_values(|e: (&'static str, &'static str)| (e.0@, e.1@))
    }
}

/// The icon of the first entry of `m` with key `key`.
pub open spec fn icon_lookup(m: Seq<(Seq<char>, Seq<char>)>, key: Seq<char>) -> Option<Seq<char>> {
    if exists|i: int| 0 <= i < m.len() && #[trigger] m[i].0 == key {
        let i = choose|i: int| 0 <= i < m.len() && #[trigger] m[i].0 == key && forall|j: int| 0 <= j < i ==> #[trigger] m[j].0 != key;
        Some(m[i].1)
    } else {
        None
    }
}

/// The extension of a name: what follows its last `.`, if it has one.
pub open spec fn extension_of(s: Seq<char>) -> Option<Seq<char>>
    decreases s.len(),
{
    if s.len() == 0 {
        None
    } else if s.last() == '.' {
        Some(Seq::empty())
    } else {
        match extension_of(s.drop_last()) {
            Some(e) => Some(e.push(s.last())),
            None => None,
        }
    }
}

/// The icon of a file named `name`: that of its name, else that of its
/// extension, else the generic file icon.
pub open spec fn icon_choice(by_name: Seq<(Seq<char>, Seq<char>)>, by_extension: Seq<(Seq<char>, Seq<char>)>, name: Seq<char>) -> Seq<char> {
    match icon_lookup(by_name, name) {
        Some(i) => i,
        None => match extension_of(name) {
            Some(e) => match icon_lookup(by_extension, e) {
                Some(i) => i,
                None => "\u{f15b}"@,
            },
            None => "\u{f15b}"@,
        },
    }
}

/// The extension of `name`, as `extension_of` states.
pub fn extension(name: &str) -> (r: Option<String>)
    ensures
        crate::transform::opt_view(r) == extension_of(name@),
{
    let n = name.unicode_len();
    let mut dot: Option<usize> = None;
    let mut i: usize = 0;
    while i < n
        invariant
            n == name@.len(),
            i <= n,
            dot is Some ==> dot->Some_0 <= i,
            extension_of(name@.subrange(0, i as int)) == match dot {
                Some(d) => Some(name@.subrange(d as int, i as int)),
                None => None::<Seq<char>>,
            },
        decreases n - i,
    {
        let c = name.get_char(i);
        proof {
            let sub = name@.subrange(0, i + 1);
            assert(sub.drop_last() =~= name@.subrange(0, i as int));
            assert(sub.last() == c);
            if let Some(d) = dot {
                assert(name@.subrange(d as int, i + 1) =~= name@.subrange(d as int, i as int).push(c));
            }
            assert(name@.subrange(i + 1, i + 1) =~= Seq::<char>::empty());
        }
        if c == '.' {
            dot = Some(i + 1);
        }
        i = i + 1;
    }
    proof {
        assert(name@.subrange(0, n as int) =~= name@);
    }
    match dot {
        Some(d) => Some(String::from_str(name.substring_char(d, n))),
        None => None,
    }
}

/// The icon of a file named `name`, as `icon_choice` states.
pub fn file_icon(by_name: &IconMap, by_extension: &IconMap, name: &str) -> (r: &'static str)
    ensures
        r@ == icon_choice(by_name@, by_extension@, name@),
{
    match by_name.get(name) {
        Some(icon) => *icon,
        None => match extension(name) {
            Some(e) => match by_extension.get(e.as_str()) {
                Some(icon) => *icon,
                None => "\u{f15b}",
            },
            None => "\u{f15b}",
        },
    }
}

impl IconMap {
    /// The icon for `key`: that of the first entry with this key.
    pub fn get(&self, key: &str) -> (r: Option<&&'static str>)
        ensures
            match r {
                Some(v) => icon_lookup(self@, key@) == Some((*v)@),
                None => icon_lookup(self@, key@) is None,
            },
    {
        let wanted = String::from_str(key);
        let mut i: usize = 0;
        while i < self.entries.len()
            invariant
                i <= self.entries.len(),
                wanted@ == key@,
                forall|j: int| 0 <= j < i ==> #[trigger] self@[j].0 != key@,
            decreases self.entries.len() - i,
        {
            let k = String::from_str(self.entries[i].0);
            if same_text(&k, &wanted) {
                proof {
                    assert(self@[i as int].0 == key@);
                    let m = self@;
                    let ii = i as int;
                    assert(0 <= ii < m.len() && m[ii].0 == key@ && forall|j: int| 0 <= j < ii ==> #[trigger] m[j].0 != key@);
                    let c = choose|c: int| 0 <= c < m.len() && #[trigger] m[c].0 == key@ && forall|j: int| 0 <= j < c ==> #[trigger] m[j].0 != key@;
                    if c < ii {
                        assert(m[c].0 != key@);
                    } else if c > ii {
                        assert(m[ii].0 != key@);
                    }
                }
                return Some(&self.entries[i].1);
            }
            i = i + 1;
        }
        None
    }
}

/// Part 0 of the icons of file extensions.
pub open spec fn extension_icons_0() -> Seq<(Seq<char>, Seq<char>)> {
    seq![
        ("7z"@, "\u{f410}"@),
        ("apk"@, "\u{e70e}"@),
        ("avi"@, "\u{f03d}"@),
        ("avro"@, "\u{e60b}"@),
        ("awk"@, "\u{f489}"@),
        ("bash"@, "\u{f489}"@),
        ("bash_history"@, "\u{f489}"@),
        ("bash_profile"@, "\u{f489}"@),
        ("bashrc"@, "\u{f489}"@),
        ("bat"@, "\u{f17a}"@),
        ("bio"@, "\u{f910}"@),
        ("bmp"@, "\u{f1c5}"@),
        ("bz2"@, "\u{f410}"@),
        ("c"@, "\u{e61e}"@),
        ("c++"@, "\u{e61d}"@),
        ("cc"@, "\u{e61d}"@),
        ("cfg"@, "\u{e615}"@),
        ("clj"@, "\u{e768}"@),
        ("cljs"@, "\u{e76a}"@),
        ("cls"@, "\u{e600}"@),
        ("coffee"@, "\u{f0f4}"@),
        ("conf"@, "\u{e615}"@),
        ("cp"@, "\u{e61d}"@),
        ("cpp"@, "\u{e61d}"@),
        ("cs"@, "\u{f81a}"@),
        ("cshtml"@, "\u{f1fa}"@),
        ("csproj"@, "\u{f81a}"@),
        ("csx"@, "\u{f81a}"@),
        ("csh"@, "\u{f489}"@),
        ("css"@, "\u{e749}"@),
        ("csv"@, "\u{f1c3}"@),
        ("cxx"@, "\u{e61d}"@),
        ("d"@, "\u{e7af}"@),
        ("dart"@, "\u{e798}"@),
        ("db"@, "\u{f1c0}"@)
    ]
}

/// Part 1 of the icons of file extensions.
pub open spec fn extension_icons_1() -> Seq<(Seq<char>, Seq<char>)> {
    seq![
        ("diff"@, "\u{f440}"@),
        ("doc"@, "\u{f1c2}"@),
        ("docx"@, "\u{f1c2}"@),
        ("ds_store"@, "\u{f179}"@),
        ("dump"@, "\u{f1c0}"@),
        ("ebook"@, "\u{e28b}"@),
        ("editorconfig"@, "\u{e615}"@),
        ("ejs"@, "\u{e618}"@),
        ("elm"@, "\u{e62c}"@),
        ("env"@, "\u{f462}"@),
        ("eot"@, "\u{f031}"@),
        ("epub"@, "\u{e28a}"@),
        ("erb"@, "\u{e73b}"@),
        ("erl"@, "\u{e7b1}"@),
        ("exe"@, "\u{f17a}"@),
        ("ex"@, "\u{e62d}"@),
        ("exs"@, "\u{e62d}"@),
        ("fish"@, "\u{f489}"@),
        ("flac"@, "\u{f001}"@),
        ("flv"@, "\u{f03d}"@),
        ("font"@, "\u{f031}"@),
        ("fpl"@, "\u{f910}"@),
        ("gdoc"@, "\u{f1c2}"@),
        ("gemfile"@, "\u{e21e}"@),
        ("gemspec"@, "\u{e21e}"@),
        ("gform"@, "\u{f298}"@),
        ("gif"@, "\u{f1c5}"@),
        ("git"@, "\u{f1d3}"@),
        ("go"@, "\u{e626}"@),
        ("gradle"@, "\u{e70e}"@),
        ("gsheet"@, "\u{f1c3}"@),
        ("gslides"@, "\u{f1c4}"@),
        ("guardfile"@, "\u{e21e}"@),
        ("gz"@, "\u{f410}"@),
        ("h"@, "\u{f0fd}"@)
    ]
}

/// Part 2 of the icons of file extensions.
pub open spec fn extension_icons_2() -> Seq<(Seq<char>, Seq<char>)> {
    seq![
        ("hbs"@, "\u{e60f}"@),
        ("hpp"@, "\u{f0fd}"@),
        ("hs"@, "\u{e777}"@),
        ("htm"@, "\u{f13b}"@),
        ("html"@, "\u{f13b}"@),
        ("hxx"@, "\u{f0fd}"@),
        ("ico"@, "\u{f1c5}"@),
        ("image"@, "\u{f1c5}"@),
        ("iml"@, "\u{e7b5}"@),
        ("ini"@, "\u{e615}"@),
        ("ipynb"@, "\u{e606}"@),
        ("jar"@, "\u{e204}"@),
        ("java"@, "\u{e204}"@),
        ("jpeg"@, "\u{f1c5}"@),
        ("jpg"@, "\u{f1c5}"@),
        ("js"@, "\u{e74e}"@),
        ("json"@, "\u{e60b}"@),
        ("jsx"@, "\u{e7ba}"@),
        ("jl"@, "\u{e624}"@),
        ("ksh"@, "\u{f489}"@),
        ("less"@, "\u{e758}"@),
        ("lhs"@, "\u{e777}"@),
        ("license"@, "\u{f48a}"@),
        ("localized"@, "\u{f179}"@),
        ("lock"@, "\u{f023}"@),
        ("log"@, "\u{f18d}"@),
        ("lua"@, "\u{e620}"@),
        ("lz"@, "\u{f410}"@),
        ("m3u"@, "\u{f910}"@),
        ("m3u8"@, "\u{f910}"@),
        ("m4a"@, "\u{f001}"@),
        ("markdown"@, "\u{f48a}"@),
        ("md"@, "\u{f48a}"@),
        ("mkd"@, "\u{f48a}"@),
        ("mkv"@, "\u{f03d}"@)
    ]
}

/// Part 3 of the icons of file extensions.
pub open spec fn extension_icons_3() -> Seq<(Seq<char>, Seq<char>)> {
    seq![
        ("mobi"@, "\u{e28b}"@),
        ("mov"@, "\u{f03d}"@),
        ("mp3"@, "\u{f001}"@),
        ("mp4"@, "\u{f03d}"@),
        ("mustache"@, "\u{e60f}"@),
        ("nix"@, "\u{f313}"@),
        ("npmignore"@, "\u{e71e}"@),
        ("opus"@, "\u{f001}"@),
        ("ogg"@, "\u{f001}"@),
        ("ogv"@, "\u{f03d}"@),
        ("otf"@, "\u{f031}"@),
        ("pdf"@, "\u{f1c1}"@),
        ("php"@, "\u{e73d}"@),
        ("pl"@, "\u{e769}"@),
        ("pls"@, "\u{f910}"@),
        ("png"@, "\u{f1c5}"@),
        ("ppt"@, "\u{f1c4}"@),
        ("pptx"@, "\u{f1c4}"@),
        ("procfile"@, "\u{e21e}"@),
        ("properties"@, "\u{e60b}"@),
        ("ps1"@, "\u{f489}"@),
        ("psd"@, "\u{e7b8}"@),
        ("pxm"@, "\u{f1c5}"@),
        ("py"@, "\u{e606}"@),
        ("pyc"@, "\u{e606}"@),
        ("r"@, "\u{f25d}"@),
        ("rakefile"@, "\u{e21e}"@),
        ("rar"@, "\u{f410}"@),
        ("razor"@, "\u{f1fa}"@),
        ("rb"@, "\u{e21e}"@),
        ("rdata"@, "\u{f25d}"@),
        ("rdb"@, "\u{e76d}"@),
        ("rdoc"@, "\u{f48a}"@),
        ("rds"@, "\u{f25d}"@),
        ("readme"@, "\u{f48a}"@)
    ]
}

/// Part 4 of the icons of file extensions.
pub open spec fn extension_icons_4() -> Seq<(Seq<char>, Seq<char>)> {
    seq![
        ("rlib"@, "\u{e7a8}"@),
        ("rmd"@, "\u{f48a}"@),
        ("rs"@, "\u{e7a8}"@),
        ("rspec"@, "\u{e21e}"@),
        ("rspec_parallel"@, "\u{e21e}"@),
        ("rspec_status"@, "\u{e21e}"@),
        ("rss"@, "\u{f09e}"@),
        ("ru"@, "\u{e21e}"@),
        ("rubydoc"@, "\u{e73b}"@),
        ("sass"@, "\u{e603}"@),
        ("scala"@, "\u{e737}"@),
        ("scss"@, "\u{e749}"@),
        ("sh"@, "\u{f489}"@),
        ("shell"@, "\u{f489}"@),
        ("slim"@, "\u{e73b}"@),
        ("sln"@, "\u{e70c}"@),
        ("sql"@, "\u{f1c0}"@),
        ("sqlite3"@, "\u{e7c4}"@),
        ("styl"@, "\u{e600}"@),
        ("stylus"@, "\u{e600}"@),
        ("svg"@, "\u{f1c5}"@),
        ("swift"@, "\u{e755}"@),
        ("tar"@, "\u{f410}"@),
        ("tex"@, "\u{e600}"@),
        ("tiff"@, "\u{f1c5}"@),
        ("ts"@, "\u{e628}"@),
        ("tsx"@, "\u{e7ba}"@),
        ("ttc"@, "\u{f031}"@),
        ("ttf"@, "\u{f031}"@),
        ("twig"@, "\u{e61c}"@),
        ("txt"@, "\u{f15c}"@),
        ("video"@, "\u{f03d}"@),
        ("vim"@, "\u{e62b}"@),
        ("vlc"@, "\u{f910}"@),
        ("vue"@, "\u{fd42}"@)
    ]
}

/// Part 5 of the icons of file extensions.
pub open spec fn extension_icons_5() -> Seq<(Seq<char>, Seq<char>)> {
    seq![
        ("wav"@, "\u{f001}"@),
        ("webm"@, "\u{f03d}"@),
        ("webp"@, "\u{f1c5}"@),
        ("windows"@, "\u{f17a}"@),
        ("wma"@, "\u{f001}"@),
        ("wmv"@, "\u{f03d}"@),
        ("wpl"@, "\u{f910}"@),
        ("woff"@, "\u{f031}"@),
        ("woff2"@, "\u{f031}"@),
        ("xls"@, "\u{f1c3}"@),
        ("xlsx"@, "\u{f1c3}"@),
        ("xml"@, "\u{e619}"@),
        ("xul"@, "\u{e619}"@),
        ("xz"@, "\u{f410}"@),
        ("yaml"@, "\u{e60b}"@),
        ("yml"@, "\u{e60b}"@),
        ("zip"@, "\u{f410}"@),
        ("zsh"@, "\u{f489}"@),
        ("zsh-theme"@, "\u{f489}"@),
        ("zshrc"@, "\u{f489}"@)
    ]
}

/// The icons of file extensions.
pub open spec fn extension_icons() -> Seq<(Seq<char>, Seq<char>)> {
    extension_icons_0() + extension_icons_1() + extension_icons_2() + extension_icons_3() + extension_icons_4() + extension_icons_5()
}

/// The entries as pairs of character sequences.
pub open spec fn icon_views(v: Seq<(&'static str, &'static str)>) -> Seq<(Seq<char>, Seq<char>)> {
    v.map_values(|e: (&'static str, &'static str)| (e.0@, e.1@))
}

fn push_extension_icons_0(entries: &mut Vec<(&'static str, &'static str)>)
    ensures
        icon_views(final(entries)@) == icon_views(old(entries)@) + extension_icons_0(),
{
    let ghost start = entries@;
    let mut part: Vec<(&'static str, &'static str)> = Vec::new();
    part.push(("7z", "\u{f410}"));
    part.push(("apk", "\u{e70e}"));
    part.push(("avi", "\u{f03d}"));
    part.push(("avro", "\u{e60b}"));
    part.push(("awk", "\u{f489}"));
    part.push(("bash", "\u{f489}"));
    part.push(("bash_history", "\u{f489}"));
    part.push(("bash_profile", "\u{f489}"));
    part.push(("bashrc", "\u{f489}"));
    part.push(("bat", "\u{f17a}"));
    part.push(("bio", "\u{f910}"));
    part.push(("bmp", "\u{f1c5}"));
    part.push(("bz2", "\u{f410}"));
    part.push(("c", "\u{e61e}"));
    part.push(("c++", "\u{e61d}"));
    part.push(("cc", "\u{e61d}"));
    part.push(("cfg", "\u{e615}"));
    part.push(("clj", "\u{e768}"));
    part.push(("cljs", "\u{e76a}"));
    part.push(("cls", "\u{e600}"));
    part.push(("coffee", "\u{f0f4}"));
    part.push(("conf", "\u{e615}"));
    part.push(("cp", "\u{e61d}"));
    part.push(("cpp", "\u{e61d}"));
    part.push(("cs", "\u{f81a}"));
    part.push(("cshtml", "\u{f1fa}"));
    part.push(("csproj", "\u{f81a}"));
    part.push(("csx", "\u{f81a}"));
    part.push(("csh", "\u{f489}"));
    part.push(("css", "\u{e749}"));
    part.push(("csv", "\u{f1c3}"));
    part.push(("cxx", "\u{e61d}"));
    part.push(("d", "\u{e7af}"));
    part.push(("dart", "\u{e798}"));
    part.push(("db", "\u{f1c0}"));
    proof {
        assert(icon_views(part@) =~= extension_icons_0());
    }
    entries.append(&mut part);
    proof {
        assert(icon_views(entries@) =~= icon_views(start) + extension_icons_0());
    }
}

fn push_extension_icons_1(entries: &mut Vec<(&'static str, &'static str)>)
    ensures
        icon_views(final(entries)@) == icon_views(old(entries)@) + extension_icons_1(),
{
    let ghost start = entries@;
    let mut part: Vec<(&'static str, &'static str)> = Vec::new();
    part.push(("diff", "\u{f440}"));
    part.push(("doc", "\u{f1c2}"));
    part.push(("docx", "\u{f1c2}"));
    part.push(("ds_store", "\u{f179}"));
    part.push(("dump", "\u{f1c0}"));
    part.push(("ebook", "\u{e28b}"));
    part.push(("editorconfig", "\u{e615}"));
    part.push(("ejs", "\u{e618}"));
    part.push(("elm", "\u{e62c}"));
    part.push(("env", "\u{f462}"));
    part.push(("eot", "\u{f031}"));
    part.push(("epub", "\u{e28a}"));
    part.push(("erb", "\u{e73b}"));
    part.push(("erl", "\u{e7b1}"));
    part.push(("exe", "\u{f17a}"));
    part.push(("ex", "\u{e62d}"));
    part.push(("exs", "\u{e62d}"));
    part.push(("fish", "\u{f489}"));
    part.push(("flac", "\u{f001}"));
    part.push(("flv", "\u{f03d}"));
    part.push(("font", "\u{f031}"));
    part.push(("fpl", "\u{f910}"));
    part.push(("gdoc", "\u{f1c2}"));
    part.push(("gemfile", "\u{e21e}"));
    part.push(("gemspec", "\u{e21e}"));
    part.push(("gform", "\u{f298}"));
    part.push(("gif", "\u{f1c5}"));
    part.push(("git", "\u{f1d3}"));
    part.push(("go", "\u{e626}"));
    part.push(("gradle", "\u{e70e}"));
    part.push(("gsheet", "\u{f1c3}"));
    part.push(("gslides", "\u{f1c4}"));
    part.push(("guardfile", "\u{e21e}"));
    part.push(("gz", "\u{f410}"));
    part.push(("h", "\u{f0fd}"));
    proof {
        assert(icon_views(part@) =~= extension_icons_1());
    }
    entries.append(&mut part);
    proof {
        assert(icon_views(entries@) =~= icon_views(start) + extension_icons_1());
    }
}

fn push_extension_icons_2(entries: &mut Vec<(&'static str, &'static str)>)
    ensures
        icon_views(final(entries)@) == icon_views(old(entries)@) + extension_icons_2(),
{
    let ghost start = entries@;
    let mut part: Vec<(&'static str, &'static str)> = Vec::new();
    part.push(("hbs", "\u{e60f}"));
    part.push(("hpp", "\u{f0fd}"));
    part.push(("hs", "\u{e777}"));
    part.push(("htm", "\u{f13b}"));
    part.push(("html", "\u{f13b}"));
    part.push(("hxx", "\u{f0fd}"));
    part.push(("ico", "\u{f1c5}"));
    part.push(("image", "\u{f1c5}"));
    part.push(("iml", "\u{e7b5}"));
    part.push(("ini", "\u{e615}"));
    part.push(("ipynb", "\u{e606}"));
    part.push(("jar", "\u{e204}"));
    part.push(("java", "\u{e204}"));
    part.push(("jpeg", "\u{f1c5}"));
    part.push(("jpg", "\u{f1c5}"));
    part.push(("js", "\u{e74e}"));
    part.push(("json", "\u{e60b}"));
    part.push(("jsx", "\u{e7ba}"));
    part.push(("jl", "\u{e624}"));
    part.push(("ksh", "\u{f489}"));
    part.push(("less", "\u{e758}"));
    part.push(("lhs", "\u{e777}"));
    part.push(("license", "\u{f48a}"));
    part.push(("localized", "\u{f179}"));
    part.push(("lock", "\u{f023}"));
    part.push(("log", "\u{f18d}"));
    part.push(("lua", "\u{e620}"));
    part.push(("lz", "\u{f410}"));
    part.push(("m3u", "\u{f910}"));
    part.push(("m3u8", "\u{f910}"));
    part.push(("m4a", "\u{f001}"));
    part.push(("markdown", "\u{f48a}"));
    part.push(("md", "\u{f48a}"));
    part.push(("mkd", "\u{f48a}"));
    part.push(("mkv", "\u{f03d}"));
    proof {
        assert(icon_views(part@) =~= extension_icons_2());
    }
    entries.append(&mut part);
    proof {
        assert(icon_views(entries@) =~= icon_views(start) + extension_icons_2());
    }
}

fn push_extension_icons_3(entries: &mut Vec<(&'static str, &'static str)>)
    ensures
        icon_views(final(entries)@) == icon_views(old(entries)@) + extension_icons_3(),
{
    let ghost start = entries@;
    let mut part: Vec<(&'static str, &'static str)> = Vec::new();
    part.push(("mobi", "\u{e28b}"));
    part.push(("mov", "\u{f03d}"));
    part.push(("mp3", "\u{f001}"));
    part.push(("mp4", "\u{f03d}"));
    part.push(("mustache", "\u{e60f}"));
    part.push(("nix", "\u{f313}"));
    part.push(("npmignore", "\u{e71e}"));
    part.push(("opus", "\u{f001}"));
    part.push(("ogg", "\u{f001}"));
    part.push(("ogv", "\u{f03d}"));
    part.push(("otf", "\u{f031}"));
    part.push(("pdf", "\u{f1c1}"));
    part.push(("php", "\u{e73d}"));
    part.push(("pl", "\u{e769}"));
    part.push(("pls", "\u{f910}"));
    part.push(("png", "\u{f1c5}"));
    part.push(("ppt", "\u{f1c4}"));
    part.push(("pptx", "\u{f1c4}"));
    part.push(("procfile", "\u{e21e}"));
    part.push(("properties", "\u{e60b}"));
    part.push(("ps1", "\u{f489}"));
    part.push(("psd", "\u{e7b8}"));
    part.push(("pxm", "\u{f1c5}"));
    part.push(("py", "\u{e606}"));
    part.push(("pyc", "\u{e606}"));
    part.push(("r", "\u{f25d}"));
    part.push(("rakefile", "\u{e21e}"));
    part.push(("rar", "\u{f410}"));
    part.push(("razor", "\u{f1fa}"));
    part.push(("rb", "\u{e21e}"));
    part.push(("rdata", "\u{f25d}"));
    part.push(("rdb", "\u{e76d}"));
    part.push(("rdoc", "\u{f48a}"));
    part.push(("rds", "\u{f25d}"));
    part.push(("readme", "\u{f48a}"));
    proof {
        assert(icon_views(part@) =~= extension_icons_3());
    }
    entries.append(&mut part);
    proof {
        assert(icon_views(entries@) =~= icon_views(start) + extension_icons_3());
    }
}

fn push_extension_icons_4(entries: &mut Vec<(&'static str, &'static str)>)
    ensures
        icon_views(final(entries)@) == icon_views(old(entries)@) + extension_icons_4(),
{
    let ghost start = entries@;
    let mut part: Vec<(&'static str, &'static str)> = Vec::new();
    part.push(("rlib", "\u{e7a8}"));
    part.push(("rmd", "\u{f48a}"));
    part.push(("rs", "\u{e7a8}"));
    part.push(("rspec", "\u{e21e}"));
    part.push(("rspec_parallel", "\u{e21e}"));
    part.push(("rspec_status", "\u{e21e}"));
    part.push(("rss", "\u{f09e}"));
    part.push(("ru", "\u{e21e}"));
    part.push(("rubydoc", "\u{e73b}"));
    part.push(("sass", "\u{e603}"));
    part.push(("scala", "\u{e737}"));
    part.push(("scss", "\u{e749}"));
    part.push(("sh", "\u{f489}"));
    part.push(("shell", "\u{f489}"));
    part.push(("slim", "\u{e73b}"));
    part.push(("sln", "\u{e70c}"));
    part.push(("sql", "\u{f1c0}"));
    part.push(("sqlite3", "\u{e7c4}"));
    part.push(("styl", "\u{e600}"));
    part.push(("stylus", "\u{e600}"));
    part.push(("svg", "\u{f1c5}"));
    part.push(("swift", "\u{e755}"));
    part.push(("tar", "\u{f410}"));
    part.push(("tex", "\u{e600}"));
    part.push(("tiff", "\u{f1c5}"));
    part.push(("ts", "\u{e628}"));
    part.push(("tsx", "\u{e7ba}"));
    part.push(("ttc", "\u{f031}"));
    part.push(("ttf", "\u{f031}"));
    part.push(("twig", "\u{e61c}"));
    part.push(("txt", "\u{f15c}"));
    part.push(("video", "\u{f03d}"));
    part.push(("vim", "\u{e62b}"));
    part.push(("vlc", "\u{f910}"));
    part.push(("vue", "\u{fd42}"));
    proof {
        assert(icon_views(part@) =~= extension_icons_4());
    }
    entries.append(&mut part);
    proof {
        assert(icon_views(entries@) =~= icon_views(start) + extension_icons_4());
    }
}

fn push_extension_icons_5(entries: &mut Vec<(&'static str, &'static str)>)
    ensures
        icon_views(final(entries)@) == icon_views(old(entries)@) + extension_icons_5(),
{
    let ghost start = entries@;
    let mut part: Vec<(&'static str, &'static str)> = Vec::new();
    part.push(("wav", "\u{f001}"));
    part.push(("webm", "\u{f03d}"));
    part.push(("webp", "\u{f1c5}"));
    part.push(("windows", "\u{f17a}"));
    part.push(("wma", "\u{f001}"));
    part.push(("wmv", "\u{f03d}"));
    part.push(("wpl", "\u{f910}"));
    part.push(("woff", "\u{f031}"));
    part.push(("woff2", "\u{f031}"));
    part.push(("xls", "\u{f1c3}"));
    part.push(("xlsx", "\u{f1c3}"));
    part.push(("xml", "\u{e619}"));
    part.push(("xul", "\u{e619}"));
    part.push(("xz", "\u{f410}"));
    part.push(("yaml", "\u{e60b}"));
    part.push(("yml", "\u{e60b}"));
    part.push(("zip", "\u{f410}"));
    part.push(("zsh", "\u{f489}"));
    part.push(("zsh-theme", "\u{f489}"));
    part.push(("zshrc", "\u{f489}"));
    proof {
        assert(icon_views(part@) =~= extension_icons_5());
    }
    entries.append(&mut part);
    proof {
        assert(icon_views(entries@) =~= icon_views(start) + extension_icons_5());
    }
}

/// The icons of file extensions.
pub fn get_icons_by_extension() -> (r: IconMap)
    ensures
        r@ == extension_icons(),
{
    let mut entries: Vec<(&'static str, &'static str)> = Vec::new();
    push_extension_icons_0(&mut entries);
    push_extension_icons_1(&mut entries);
    push_extension_icons_2(&mut entries);
    push_extension_icons_3(&mut entries);
    push_extension_icons_4(&mut entries);
    push_extension_icons_5(&mut entries);
    proof {
        assert(icon_views(entries@) =~= extension_icons());
    }
    IconMap { entries }
}

/// The icons of file and directory names.
pub open spec fn name_icons() -> Seq<(Seq<char>, Seq<char>)> {
    seq![
        (".trash"@, "\u{f1f8}"@),
        (".atom"@, "\u{e764}"@),
        (".bashprofile"@, "\u{e615}"@),
        (".bashrc"@, "\u{f489}"@),
        (".git"@, "\u{f1d3}"@),
        (".gitattributes"@, "\u{f1d3}"@),
        (".gitconfig"@, "\u{f1d3}"@),
        (".github"@, "\u{f408}"@),
        (".gitignore"@, "\u{f1d3}"@),
        (".gitmodules"@, "\u{f1d3}"@),
        (".rvm"@, "\u{e21e}"@),
        (".vimrc"@, "\u{e62b}"@),
        (".vscode"@, "\u{e70c}"@),
        (".zshrc"@, "\u{f489}"@),
        ("bin"@, "\u{e5fc}"@),
        ("config"@, "\u{e5fc}"@),
        ("docker-compose.yml"@, "\u{f308}"@),
        ("dockerfile"@, "\u{f308}"@),
        ("ds_store"@, "\u{f179}"@),
        ("gitignore_global"@, "\u{f1d3}"@),
        ("gradle"@, "\u{e70e}"@),
        ("gruntfile.coffee"@, "\u{e611}"@),
        ("gruntfile.js"@, "\u{e611}"@),
        ("gruntfile.ls"@, "\u{e611}"@),
        ("gulpfile.coffee"@, "\u{e610}"@),
        ("gulpfile.js"@, "\u{e610}"@),
        ("gulpfile.ls"@, "\u{e610}"@),
        ("hidden"@, "\u{f023}"@),
        ("include"@, "\u{e5fc}"@),
        ("lib"@, "\u{f121}"@),
        ("localized"@, "\u{f179}"@),
        ("node_modules"@, "\u{e718}"@),
        ("npmignore"@, "\u{e71e}"@),
        ("rubydoc"@, "\u{e73b}"@)
    ]
}

/// The icons of file and directory names.
pub fn get_icons_by_name() -> (r: IconMap)
    ensures
        r@ == name_icons(),
{
    let mut entries: Vec<(&'static str, &'static str)> = Vec::new();
    entries.push((".trash", "\u{f1f8}"));
    entries.push((".atom", "\u{e764}"));
    entries.push((".bashprofile", "\u{e615}"));
    entries.push((".bashrc", "\u{f489}"));
    entries.push((".git", "\u{f1d3}"));
    entries.push((".gitattributes", "\u{f1d3}"));
    entries.push((".gitconfig", "\u{f1d3}"));
    entries.push((".github", "\u{f408}"));
    entries.push((".gitignore", "\u{f1d3}"));
    entries.push((".gitmodules", "\u{f1d3}"));
    entries.push((".rvm", "\u{e21e}"));
    entries.push((".vimrc", "\u{e62b}"));
    entries.push((".vscode", "\u{e70c}"));
    entries.push((".zshrc", "\u{f489}"));
    entries.push(("bin", "\u{e5fc}"));
    entries.push(("config", "\u{e5fc}"));
    entries.push(("docker-compose.yml", "\u{f308}"));
    entries.push(("dockerfile", "\u{f308}"));
    entries.push(("ds_store", "\u{f179}"));
    entries.push(("gitignore_global", "\u{f1d3}"));
    entries.push(("gradle", "\u{e70e}"));
    entries.push(("gruntfile.coffee", "\u{e611}"));
    entries.push(("gruntfile.js", "\u{e611}"));
    entries.push(("gruntfile.ls", "\u{e611}"));
    entries.push(("gulpfile.coffee", "\u{e610}"));
    entries.push(("gulpfile.js", "\u{e610}"));
    entries.push(("gulpfile.ls", "\u{e610}"));
    entries.push(("hidden", "\u{f023}"));
    entries.push(("include", "\u{e5fc}"));
    entries.push(("lib", "\u{f121}"));
    entries.push(("localized", "\u{f179}"));
    entries.push(("node_modules", "\u{e718}"));
    entries.push(("npmignore", "\u{e71e}"));
    entries.push(("rubydoc", "\u{e73b}"));
    let r = IconMap { entries };
    proof {
        assert(r@ =~= name_icons());
    }
    r
}

} // verus!
