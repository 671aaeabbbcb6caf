//! Paths as text: the components of a path, a path made relative to a root,
//! and a path built back under a root.

use vstd::prelude::*;
use vstd::string::StrSliceExecFns;
use vstd::string::StringExecFns;

verus! {

/// A segment that names an entry: not empty, not `.` and not `..`.
pub open spec fn is_normal(seg: Seq<char>) -> bool {
    seg.len() > 0 && seg != seq!['.'] && seg != seq!['.', '.']
}

/// `acc` with `seg` added when `seg` names an entry.
pub open spec fn keep_normal(acc: Seq<Seq<char>>, seg: Seq<char>) -> Seq<Seq<char>> {
    if is_normal(seg) {
        acc.push(seg)
    } else {
        acc
    }
}

/// The state after reading the first `n` characters of `s`: the finished
/// components and the segment being read.
pub open spec fn scan(s: Seq<char>, n: nat) -> (Seq<Seq<char>>, Seq<char>)
    decreases n,
{
    if n == 0 {
        (Seq::empty(), Seq::empty())
    } else {
        let (done, cur) = scan(s, (n - 1) as nat);
        if s[n - 1] == '/' {
            (keep_normal(done, cur), Seq::empty())
        } else {
            (done, cur.push(s[n - 1]))
        }
    }
}

/// The named components of a `/`-separated path, in order.
pub open spec fn components(s: Seq<char>) -> Seq<Seq<char>> {
    let (done, cur) = scan(s, s.len());
    keep_normal(done, cur)
}

/// A path is absolute when it starts at the file system's root.
pub open spec fn is_absolute(s: Seq<char>) -> bool {
    s.len() > 0 && s[0] == '/'
}

/// The components of `path` below `root`, when `root` is an ancestor of
/// `path` (or `path` itself) component by component.
pub open spec fn relative(path: Seq<char>, root: Seq<char>) -> Option<Seq<Seq<char>>> {
    let p = components(path);
    let r = components(root);
    if is_absolute(path) == is_absolute(root) && r.len() <= p.len() && p.subrange(0, r.len() as int) == r {
        Some(p.subrange(r.len() as int, p.len() as int))
    } else {
        None
    }
}

/// `base` followed by one more component.
pub open spec fn join_one(base: Seq<char>, c: Seq<char>) -> Seq<char> {
    if base.len() > 0 && base.last() == '/' {
        base + c
    } else {
        base + seq!['/'] + c
    }
}

/// `root` followed by each of `comps`.
pub open spec fn join_under(root: Seq<char>, comps: Seq<Seq<char>>) -> Seq<char>
    decreases comps.len(),
{
    if comps.len() == 0 {
        root
    } else {
        join_one(join_under(root, comps.drop_last()), comps.last())
    }
}

/// The views of a vector of strings.
pub open spec fn views(v: Seq<String>) -> Seq<Seq<char>> {
    v.map_values(|s: String| s@)
}

/// Splits a path into its named components.
pub fn split_components(s: &str) -> (r: Vec<String>)
    ensures
        views(r@) == components(s@),
{
    let n = s.unicode_len();
    let mut done: Vec<String> = Vec::new();
    let mut start: usize = 0;
    let mut i: usize = 0;
    while i < n
        invariant
            n == s@.len(),
            start <= i <= n,
            views(done@) == scan(s@, i as nat).0,
            s@.subrange(start as int, i as int) == scan(s@, i as nat).1,
        decreases n - i,
    {
        let c = s.get_char(i);
        proof {
            assert(s@.subrange(start as int, i + 1) == s@.subrange(start as int, i as int).push(s@[i as int]));
        }
        if c == '/' {
            let seg = String::from_str(s.substring_char(start, i));
            push_if_normal(&mut done, seg);
            start = i + 1;
        }
        i = i + 1;
    }
    let seg = String::from_str(s.substring_char(start, n));
    push_if_normal(&mut done, seg);
    done
}

/// Adds `seg` to `v` when it names an entry.
fn push_if_normal(v: &mut Vec<String>, seg: String)
    ensures
        views(final(v)@) == keep_normal(views(old(v)@), seg@),
{
    let len = seg.unicode_len();
    let mut normal = len > 0;
    if len == 1 {
        if seg.as_str().get_char(0) == '.' {
            normal = false;
            proof {
                assert(seg@ =~= seq!['.']);
            }
        }
    } else if len == 2 {
        if seg.as_str().get_char(0) == '.' && seg.as_str().get_char(1) == '.' {
            normal = false;
            proof {
                assert(seg@ =~= seq!['.', '.']);
            }
        }
    }
    proof {
        if len == 1 && !(seg@[0] == '.') {
            assert(seg@ != seq!['.']);
        }
    }
    if normal {
        v.push(seg);
        proof {
            assert(views(final(v)@) =~= views(old(v)@).push(seg@));
        }
    }
}

/// Whether `s` starts with `/`.
pub fn absolute(s: &str) -> (r: bool)
    ensures
        r == is_absolute(s@),
{
    s.unicode_len() > 0 && s.get_char(0) == '/'
}

/// Whether two strings hold the same characters.
pub fn same_text(a: &String, b: &String) -> (r: bool)
    ensures
        r == (a@ == b@),
{
    a.eq(b)
}

/// Whether two component lists are equal.
pub fn same_components(a: &Vec<String>, b: &Vec<String>) -> (r: bool)
    ensures
        r == (views(a@) == views(b@)),
{
    if a.len() != b.len() {
        proof {
            assert(views(a@).len() != views(b@).len());
        }
        return false;
    }
    let mut i: usize = 0;
    while i < a.len()
        invariant
            a.len() == b.len(),
            i <= a.len(),
            forall|j: int| 0 <= j < i ==> #[trigger] a@[j]@ == b@[j]@,
        decreases a.len() - i,
    {
        if !same_text(&a[i], &b[i]) {
            proof {
                assert(views(a@)[i as int] != views(b@)[i as int]);
            }
            return false;
        }
        i = i + 1;
    }
    proof {
        assert(views(a@) =~= views(b@));
    }
    true
}

/// The components of `path` below `root`, or `None` where `path` does not
/// lie under `root`.
pub fn relative_components(path: &str, root: &str) -> (r: Option<Vec<String>>)
    ensures
        match r {
            Some(v) => relative(path@, root@) == Some(views(v@)),
            None => relative(path@, root@) is None,
        },
{
    let p = split_components(path);
    let rc = split_components(root);
    if absolute(path) != absolute(root) || rc.len() > p.len() {
        return None;
    }
    let mut i: usize = 0;
    while i < rc.len()
        invariant
            rc.len() <= p.len(),
            i <= rc.len(),
            views(p@) == components(path@),
            views(rc@) == components(root@),
            is_absolute(path@) == is_absolute(root@),
            forall|j: int| 0 <= j < i ==> #[trigger] p@[j]@ == rc@[j]@,
        decreases rc.len() - i,
    {
        if !same_text(&p[i], &rc[i]) {
            proof {
                assert(views(p@).subrange(0, rc.len() as int)[i as int] != views(rc@)[i as int]);
                assert(views(p@).subrange(0, rc.len() as int) != views(rc@));
            }
            return None;
        }
        i = i + 1;
    }
    proof {
        assert(views(p@).subrange(0, rc.len() as int) =~= views(rc@));
    }
    let mut rest: Vec<String> = Vec::new();
    let mut k: usize = rc.len();
    while k < p.len()
        invariant
            rc.len() <= k <= p.len(),
            views(rest@) =~= views(p@).subrange(rc.len() as int, k as int),
        decreases p.len() - k,
    {
        let ghost before = rest@;
        rest.push(p[k].clone());
        proof {
            assert(views(rest@) =~= views(before).push(p@[k as int]@));
        }
        k = k + 1;
    }
    Some(rest)
}

/// `root` followed by each of `comps`, separated by `/`.
pub fn join_components(root: &str, comps: &Vec<String>) -> (r: String)
    ensures
        r@ == join_under(root@, views(comps@)),
{
    let mut s = String::from_str(root);
    let mut i: usize = 0;
    while i < comps.len()
        invariant
            i <= comps.len(),
            s@ == join_under(root@, views(comps@).subrange(0, i as int)),
        decreases comps.len() - i,
    {
        let n = s.as_str().unicode_len();
        let ends_with_slash = n > 0 && s.as_str().get_char(n - 1) == '/';
        if !ends_with_slash {
            s.append("/");
        }
        s.append(comps[i].as_str());
        proof {
            reveal_strlit("/");
            let pre = views(comps@).subrange(0, i + 1);
            assert(pre.drop_last() =~= views(comps@).subrange(0, i as int));
        }
        i = i + 1;
    }
    proof {
        assert(views(comps@).subrange(0, comps.len() as int) =~= views(comps@));
    }
    s
}

} // verus!
