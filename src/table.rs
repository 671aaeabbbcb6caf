//! The address table of the last render: directory `i` answers to the
//! label `label_of(i)`, file `i` to the number `i`.

use vstd::prelude::*;
use vstd::string::StrSliceExecFns;
use vstd::string::StringExecFns;
use crate::label::{label_of, directory_label};
use crate::error::NomadError;
use crate::paths::{views, same_text};

verus! {

/// Absolute paths of the labelled directories and numbered files, in the
/// order the render assigned them; a label or number is its position, so
/// no map from keys is needed and no key can appear twice.
pub struct AddressTable {
    pub labeled: Vec<String>,
    pub numbered: Vec<String>,
}

/// A table as the sequences of its directory and file paths.
pub struct TableView {
    pub labeled: Seq<Seq<char>>,
    pub numbered: Seq<Seq<char>>,
}

impl View for AddressTable {
    type V = TableView;

    open spec fn view(&self) -> TableView {
        TableView { labeled: views(self.labeled@), numbered: views(self.numbered@) }
    }
}

/// The path that `label` names in `t`, if any.
pub open spec fn label_target(t: TableView, label: Seq<char>) -> Option<Seq<char>> {
    if exists|i: int| 0 <= i < t.labeled.len() && #[trigger] label_of(i as nat) == label {
        let i = choose|i: int| 0 <= i < t.labeled.len() && #[trigger] label_of(i as nat) == label;
        Some(t.labeled[i])
    } else {
        None
    }
}

/// The path that `number` names in `t`, if any.
pub open spec fn number_target(t: TableView, number: nat) -> Option<Seq<char>> {
    if number < t.numbered.len() {
        Some(t.numbered[number as int])
    } else {
        None
    }
}

/// One character of a path as stored: a backslash and a line break are
/// written as two characters each, every other character as itself.
pub open spec fn escape_char(c: char) -> Seq<char> {
    if c == '\\' {
        seq!['\\', '\\']
    } else if c == '\n' {
        seq!['\\', 'n']
    } else {
        seq![c]
    }
}

/// A path as stored.
pub open spec fn escape(p: Seq<char>) -> Seq<char>
    decreases p.len(),
{
    if p.len() == 0 {
        Seq::empty()
    } else {
        escape(p.drop_last()) + escape_char(p.last())
    }
}

/// One line per path: the tag, the stored path, a line break.
pub open spec fn encode_lines(tag: char, paths: Seq<Seq<char>>) -> Seq<char>
    decreases paths.len(),
{
    if paths.len() == 0 {
        Seq::empty()
    } else {
        encode_lines(tag, paths.drop_last()) + seq![tag] + escape(paths.last()) + seq!['\n']
    }
}

/// A table as text: a `D` line per labelled directory, then an `F` line per
/// numbered file, each in order.
pub open spec fn encode_table(t: TableView) -> Seq<char> {
    encode_lines('D', t.labeled) + encode_lines('F', t.numbered)
}

/// Where a reader of the text stands: at the start of a line, or inside a
/// `D` or an `F` line.
pub enum LineKind {
    Start,
    Dir,
    File,
}

/// A reader of stored text: what it has read, the path being read, where it
/// stands, whether a backslash awaits its second character, and whether the
/// text was well formed so far.
pub struct Reader {
    pub labeled: Seq<Seq<char>>,
    pub numbered: Seq<Seq<char>>,
    pub cur: Seq<char>,
    pub kind: LineKind,
    pub escaped: bool,
    pub ok: bool,
}

/// The reader after one more character.
pub open spec fn read_char(r: Reader, c: char) -> Reader {
    if !r.ok {
        r
    } else {
        match r.kind {
            LineKind::Start => {
                if c == 'D' {
                    Reader { kind: LineKind::Dir, ..r }
                } else if c == 'F' {
                    Reader { kind: LineKind::File, ..r }
                } else {
                    Reader { ok: false, ..r }
                }
            },
            _ => {
                if r.escaped {
                    if c == '\\' {
                        Reader { cur: r.cur.push('\\'), escaped: false, ..r }
                    } else if c == 'n' {
                        Reader { cur: r.cur.push('\n'), escaped: false, ..r }
                    } else {
                        Reader { ok: false, ..r }
                    }
                } else if c == '\\' {
                    Reader { escaped: true, ..r }
                } else if c == '\n' {
                    match r.kind {
                        LineKind::Dir => Reader { labeled: r.labeled.push(r.cur), cur: Seq::empty(), kind: LineKind::Start, ..r },
                        _ => Reader { numbered: r.numbered.push(r.cur), cur: Seq::empty(), kind: LineKind::Start, ..r },
                    }
                } else {
                    Reader { cur: r.cur.push(c), ..r }
                }
            },
        }
    }
}

/// The reader after the characters of `s`.
pub open spec fn read_all(r: Reader, s: Seq<char>) -> Reader
    decreases s.len(),
{
    if s.len() == 0 {
        r
    } else {
        read_char(read_all(r, s.drop_last()), s.last())
    }
}

/// A reader before any character, at the start of a line.
pub open spec fn fresh_reader() -> Reader {
    Reader { labeled: Seq::empty(), numbered: Seq::empty(), cur: Seq::empty(), kind: LineKind::Start, escaped: false, ok: true }
}

/// The table that stored text holds, or `None` where the text is not a
/// sequence of complete, well-formed lines.
pub open spec fn decode_table(s: Seq<char>) -> Option<TableView> {
    let r = read_all(fresh_reader(), s);
    if r.ok && r.kind is Start {
        Some(TableView { labeled: r.labeled, numbered: r.numbered })
    } else {
        None
    }
}

proof fn lemma_read_concat(r: Reader, a: Seq<char>, b: Seq<char>)
    ensures
        read_all(r, a + b) == read_all(read_all(r, a), b),
    decreases b.len(),
{
    if b.len() == 0 {
        assert(a + b =~= a);
    } else {
        lemma_read_concat(r, a, b.drop_last());
        assert((a + b).drop_last() =~= a + b.drop_last());
        assert((a + b).last() == b.last());
    }
}

proof fn lemma_read_one(r: Reader, a: char)
    ensures
        read_all(r, seq![a]) == read_char(r, a),
{
    assert(seq![a].drop_last() =~= Seq::<char>::empty());
    assert(read_all(r, Seq::<char>::empty()) == r);
}

proof fn lemma_read_two(r: Reader, a: char, b: char)
    ensures
        read_all(r, seq![a, b]) == read_char(read_char(r, a), b),
{
    assert(seq![a, b].drop_last() =~= seq![a]);
    lemma_read_one(r, a);
}

proof fn lemma_read_escaped(r: Reader, p: Seq<char>)
    requires
        r.ok,
        !r.escaped,
        !(r.kind is Start),
    ensures
        read_all(r, escape(p)) == (Reader { cur: r.cur + p, ..r }),
    decreases p.len(),
{
    if p.len() == 0 {
        assert(r.cur + p =~= r.cur);
    } else {
        lemma_read_escaped(r, p.drop_last());
        lemma_read_concat(r, escape(p.drop_last()), escape_char(p.last()));
        let mid = Reader { cur: r.cur + p.drop_last(), ..r };
        let c = p.last();
        assert(r.cur + p =~= (r.cur + p.drop_last()).push(c));
        if c == '\\' {
            lemma_read_two(mid, '\\', '\\');
        } else if c == '\n' {
            lemma_read_two(mid, '\\', 'n');
        } else {
            lemma_read_one(mid, c);
        }
    }
}

proof fn lemma_read_lines(r: Reader, tag: char, paths: Seq<Seq<char>>)
    requires
        r.ok,
        !r.escaped,
        r.kind is Start,
        r.cur.len() == 0,
        tag == 'D' || tag == 'F',
    ensures
        read_all(r, encode_lines(tag, paths)) == (if tag == 'D' {
            Reader { labeled: r.labeled + paths, ..r }
        } else {
            Reader { numbered: r.numbered + paths, ..r }
        }),
    decreases paths.len(),
{
    if paths.len() == 0 {
        assert(r.labeled + paths =~= r.labeled);
        assert(r.numbered + paths =~= r.numbered);
    } else {
        let ps = paths.drop_last();
        let p = paths.last();
        lemma_read_lines(r, tag, ps);
        let mid = if tag == 'D' { Reader { labeled: r.labeled + ps, ..r } } else { Reader { numbered: r.numbered + ps, ..r } };
        let line = seq![tag] + escape(p) + seq!['\n'];
        assert(encode_lines(tag, paths) =~= encode_lines(tag, ps) + line);
        lemma_read_concat(r, encode_lines(tag, ps), line);
        lemma_read_concat(mid, seq![tag] + escape(p), seq!['\n']);
        lemma_read_concat(mid, seq![tag], escape(p));
        lemma_read_one(mid, tag);
        let opened = read_all(mid, seq![tag]);
        assert(opened.ok && !opened.escaped && !(opened.kind is Start));
        lemma_read_escaped(opened, p);
        let filled = read_all(opened, escape(p));
        lemma_read_one(filled, '\n');
        assert(r.cur =~= Seq::<char>::empty());
        assert(filled.cur =~= p);
        assert(read_all(mid, seq![tag] + escape(p)) == filled);
        assert(read_all(r, encode_lines(tag, paths)) == read_char(filled, '\n'));
        assert(Seq::<char>::empty() + p =~= p);
        assert(r.labeled + ps.push(p) =~= (r.labeled + ps).push(p));
        assert(r.numbered + ps.push(p) =~= (r.numbered + ps).push(p));
        assert(ps.push(p) =~= paths);
    }
}

/// Reading back the text of a table gives the same table: every label and
/// number names the path it named when the table was written.
pub proof fn lemma_table_round_trip(t: TableView)
    ensures
        decode_table(encode_table(t)) == Some(t),
{
    let r0 = fresh_reader();
    lemma_read_concat(r0, encode_lines('D', t.labeled), encode_lines('F', t.numbered));
    lemma_read_lines(r0, 'D', t.labeled);
    let r1 = Reader { labeled: r0.labeled + t.labeled, ..r0 };
    lemma_read_lines(r1, 'F', t.numbered);
    assert(r0.labeled + t.labeled =~= t.labeled);
    assert(r1.numbered + t.numbered =~= t.numbered);
}

/// Relies on `String::push`: the character is added at the end.
#[verifier::external_body]
pub(crate) fn push_char(s: &mut String, c: char)
    ensures
        final(s)@ == old(s)@.push(c),
{
    s.push(c)
}

/// `s` followed by the stored form of `p`.
fn append_escaped(s: &mut String, p: &str)
    ensures
        final(s)@ == old(s)@ + escape(p@),
{
    let ghost s0 = s@;
    let n = p.unicode_len();
    let mut j: usize = 0;
    while j < n
        invariant
            n == p@.len(),
            j <= n,
            s@ == s0 + escape(p@.subrange(0, j as int)),
        decreases n - j,
    {
        let c = p.get_char(j);
        if c == '\\' {
            push_char(s, '\\');
            push_char(s, '\\');
        } else if c == '\n' {
            push_char(s, '\\');
            push_char(s, 'n');
        } else {
            push_char(s, c);
        }
        proof {
            assert(p@.subrange(0, j + 1).drop_last() =~= p@.subrange(0, j as int));
            assert(s@ =~= s0 + escape(p@.subrange(0, j + 1)));
        }
        j = j + 1;
    }
    proof {
        assert(p@.subrange(0, n as int) =~= p@);
    }
}

/// `s` followed by a line per path of `paths`, each starting with `tag`.
fn append_lines(s: &mut String, tag: char, paths: &Vec<String>)
    ensures
        final(s)@ == old(s)@ + encode_lines(tag, views(paths@)),
{
    let ghost s0 = s@;
    let mut i: usize = 0;
    while i < paths.len()
        invariant
            i <= paths.len(),
            s@ == s0 + encode_lines(tag, views(paths@).subrange(0, i as int)),
        decreases paths.len() - i,
    {
        push_char(s, tag);
        append_escaped(s, paths[i].as_str());
        push_char(s, '\n');
        proof {
            let sub = views(paths@).subrange(0, i + 1);
            assert(sub.drop_last() =~= views(paths@).subrange(0, i as int));
            assert(s@ =~= s0 + encode_lines(tag, sub));
        }
        i = i + 1;
    }
    proof {
        assert(views(paths@).subrange(0, paths.len() as int) =~= views(paths@));
    }
}

/// A reader at work on stored text.
pub struct TextReader {
    pub labeled: Vec<String>,
    pub numbered: Vec<String>,
    pub cur: String,
    pub kind: LineKind,
    pub escaped: bool,
    pub ok: bool,
}

impl View for TextReader {
    type V = Reader;

    open spec fn view(&self) -> Reader {
        Reader {
            labeled: views(self.labeled@),
            numbered: views(self.numbered@),
            cur: self.cur@,
            kind: self.kind,
            escaped: self.escaped,
            ok: self.ok,
        }
    }
}

/// Reads one character.
fn read_one(r: &mut TextReader, c: char)
    ensures
        final(r)@ == read_char(old(r)@, c),
{
    if !r.ok {
        return;
    }
    match r.kind {
        LineKind::Start => {
            if c == 'D' {
                r.kind = LineKind::Dir;
            } else if c == 'F' {
                r.kind = LineKind::File;
            } else {
                r.ok = false;
            }
        },
        LineKind::Dir | LineKind::File => {
            if r.escaped {
                if c == '\\' {
                    push_char(&mut r.cur, '\\');
                    r.escaped = false;
                } else if c == 'n' {
                    push_char(&mut r.cur, '\n');
                    r.escaped = false;
                } else {
                    r.ok = false;
                }
            } else if c == '\\' {
                r.escaped = true;
            } else if c == '\n' {
                let done = r.cur.clone();
                r.cur = String::new();
                let ghost before = r@;
                match r.kind {
                    LineKind::Dir => {
                        r.labeled.push(done);
                        proof {
                            assert(views(r.labeled@) =~= before.labeled.push(done@));
                        }
                    },
                    _ => {
                        r.numbered.push(done);
                        proof {
                            assert(views(r.numbered@) =~= before.numbered.push(done@));
                        }
                    },
                }
                r.kind = LineKind::Start;
            } else {
                push_char(&mut r.cur, c);
            }
        },
    }
}

/// Whether every character of `s` is a decimal digit.
pub open spec fn all_digits(s: Seq<char>) -> bool {
    forall|i: int| 0 <= i < s.len() ==> '0' <= #[trigger] s[i] <= '9'
}

/// The number that the decimal digits `s` write.
pub open spec fn digits_value(s: Seq<char>) -> nat
    decreases s.len(),
{
    if s.len() == 0 {
        0
    } else {
        digits_value(s.drop_last()) * 10 + ((s.last() as u32) - ('0' as u32)) as nat
    }
}

/// The path that an item typed by the user names: a number of decimal
/// digits names a file, anything else a directory label.
pub open spec fn item_target(t: TableView, item: Seq<char>) -> Option<Seq<char>> {
    if item.len() > 0 && all_digits(item) {
        number_target(t, digits_value(item))
    } else {
        label_target(t, item)
    }
}

proof fn lemma_digits_grow(s: Seq<char>)
    requires
        all_digits(s),
        s.len() > 0,
    ensures
        digits_value(s) >= digits_value(s.drop_last()) * 10,
{
}

impl AddressTable {
    /// The path that `item` names, or `UnknownItem` where it names nothing
    /// in the table.
    pub fn resolve(&self, item: &str) -> (r: Result<String, NomadError>)
        ensures
            r is Ok ==> item_target(self@, item@) == Some(r->Ok_0@),
            r is Err ==> item_target(self@, item@) is None && r->Err_0 is UnknownItem,
    {
        let n = item.unicode_len();
        let mut digits = n > 0;
        let mut value: usize = 0;
        let mut fits = true;
        let mut i: usize = 0;
        while i < n
            invariant
                n == item@.len(),
                i <= n,
                digits == (n > 0 && forall|j: int| 0 <= j < i ==> '0' <= #[trigger] item@[j] <= '9'),
                digits && fits ==> value == digits_value(item@.subrange(0, i as int)),
                digits && !fits ==> digits_value(item@.subrange(0, i as int)) > usize::MAX,
            decreases n - i,
        {
            let c = item.get_char(i);
            let ghost sub = item@.subrange(0, i + 1);
            proof {
                assert(sub.drop_last() =~= item@.subrange(0, i as int));
                assert(sub.last() == c);
            }
            if digits {
                if '0' <= c && c <= '9' {
                    let d = (c as u32 - '0' as u32) as usize;
                    if fits {
                        if value <= (usize::MAX - d) / 10 {
                            value = value * 10 + d;
                        } else {
                            fits = false;
                            proof {
                                assert(value * 10 + d > usize::MAX) by (nonlinear_arith)
                                    requires value > (usize::MAX - d) / 10, d <= 9;
                            }
                        }
                    } else {
                        proof {
                            assert(forall|j: int| 0 <= j < sub.len() ==> '0' <= #[trigger] sub[j] <= '9');
                            lemma_digits_grow(sub);
                        }
                    }
                } else {
                    digits = false;
                }
            }
            i = i + 1;
        }
        proof {
            assert(item@.subrange(0, n as int) =~= item@);
            if digits {
                assert(all_digits(item@));
            } else if n > 0 {
                let j = choose|j: int| 0 <= j < n && !('0' <= #[trigger] item@[j] <= '9');
                assert(!all_digits(item@));
            }
        }
        let found = if digits {
            if fits {
                let f = self.resolve_number(value);
                proof {
                    assert(digits_value(item@) == value as nat);
                    assert(item_target(self@, item@) == number_target(self@, value as nat));
                }
                f
            } else {
                let count = self.numbered.len();
                proof {
                    assert(self@.numbered.len() == count);
                    assert(item_target(self@, item@) is None);
                }
                None
            }
        } else {
            let f = self.resolve_label(item);
            proof {
                assert(item_target(self@, item@) == label_target(self@, item@));
            }
            f
        };
        match found {
            Some(p) => {
                Ok(p)
            },
            None => Err(NomadError::UnknownItem(String::from_str(item))),
        }
    }

    /// The paths that `items` name, in order; `UnknownItem` for the first
    /// item that names nothing.
    pub fn resolve_all(&self, items: &Vec<String>) -> (r: Result<Vec<String>, NomadError>)
        ensures
            r is Ok <==> forall|i: int| 0 <= i < items@.len() ==> #[trigger] item_target(self@, items@[i]@) is Some,
            r is Ok ==> r->Ok_0@.len() == items@.len() && forall|i: int| 0 <= i < items@.len()
                ==> item_target(self@, items@[i]@) == Some(#[trigger] r->Ok_0@[i]@),
            r is Err ==> r->Err_0 is UnknownItem,
    {
        let mut paths: Vec<String> = Vec::new();
        let mut i: usize = 0;
        while i < items.len()
            invariant
                i <= items.len(),
                paths@.len() == i,
                forall|j: int| 0 <= j < i ==> item_target(self@, items@[j]@) == Some(#[trigger] paths@[j]@),
            decreases items.len() - i,
        {
            match self.resolve(items[i].as_str()) {
                Ok(p) => paths.push(p),
                Err(e) => {
                    proof {
                        assert(item_target(self@, items@[i as int]@) is None);
                    }
                    return Err(e);
                },
            }
            i = i + 1;
        }
        proof {
            assert forall|j: int| 0 <= j < items@.len() implies #[trigger] item_target(self@, items@[j]@) is Some by {
                assert(item_target(self@, items@[j]@) == Some(paths@[j]@));
            }
        }
        Ok(paths)
    }

    /// The table as text, as `encode_table` states it.
    pub fn encode(&self) -> (r: String)
        ensures
            r@ == encode_table(self@),
    {
        let mut s = String::new();
        append_lines(&mut s, 'D', &self.labeled);
        append_lines(&mut s, 'F', &self.numbered);
        s
    }

    /// The table that `text` holds, or `None` where it is not well formed.
    pub fn decode(text: &str) -> (r: Option<AddressTable>)
        ensures
            r is Some <==> decode_table(text@) is Some,
            r is Some ==> r->Some_0@ == decode_table(text@)->Some_0,
    {
        let mut rd = TextReader {
            labeled: Vec::new(),
            numbered: Vec::new(),
            cur: String::new(),
            kind: LineKind::Start,
            escaped: false,
            ok: true,
        };
        proof {
            assert(views(rd.labeled@) =~= Seq::<Seq<char>>::empty());
            assert(views(rd.numbered@) =~= Seq::<Seq<char>>::empty());
            assert(rd@ == fresh_reader());
            assert(text@.subrange(0, 0) =~= Seq::<char>::empty());
        }
        let n = text.unicode_len();
        let mut i: usize = 0;
        while i < n
            invariant
                n == text@.len(),
                i <= n,
                rd@ == read_all(fresh_reader(), text@.subrange(0, i as int)),
            decreases n - i,
        {
            let c = text.get_char(i);
            read_one(&mut rd, c);
            proof {
                assert(text@.subrange(0, i + 1).drop_last() =~= text@.subrange(0, i as int));
            }
            i = i + 1;
        }
        proof {
            assert(text@.subrange(0, n as int) =~= text@);
        }
        match rd.kind {
            LineKind::Start => {
                if rd.ok {
                    Some(AddressTable { labeled: rd.labeled, numbered: rd.numbered })
                } else {
                    None
                }
            },
            _ => None,
        }
    }

    /// The path that file number `number` names.
    pub fn resolve_number(&self, number: usize) -> (r: Option<String>)
        ensures
            match r {
                Some(p) => number_target(self@, number as nat) == Some(p@),
                None => number_target(self@, number as nat) is None,
            },
    {
        if number < self.numbered.len() {
            Some(self.numbered[number].clone())
        } else {
            None
        }
    }

    /// The path that directory label `label` names.
    pub fn resolve_label(&self, label: &str) -> (r: Option<String>)
        ensures
            match r {
                Some(p) => label_target(self@, label@) == Some(p@),
                None => label_target(self@, label@) is None,
            },
    {
        let wanted = String::from_str(label);
        let mut i: usize = 0;
        while i < self.labeled.len()
            invariant
                i <= self.labeled.len(),
                wanted@ == label@,
                forall|j: int| 0 <= j < i ==> #[trigger] label_of(j as nat) != label@,
            decreases self.labeled.len() - i,
        {
            let candidate = directory_label(i);
            if same_text(&candidate, &wanted) {
                proof {
                    assert(label_of(i as nat) == label@);
                    let ii: int = i as int;
                    assert(0 <= ii < self@.labeled.len() && label_of(ii as nat) == label@);
                    let k = choose|k: int| 0 <= k < self@.labeled.len() && #[trigger] label_of(k as nat) == label@;
                    crate::label::lemma_label_injective(k as nat, i as nat);
                }
                return Some(self.labeled[i].clone());
            }
            i = i + 1;
        }
        proof {
            assert(!(exists|k: int| 0 <= k < self@.labeled.len() && #[trigger] label_of(k as nat) == label@));
        }
        None
    }
}

} // verus!
