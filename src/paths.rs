//! Slash-separated relative paths as plain strings, and the staged file
//! triple (`P`, `P-new`, `P-old`) of a managed asset.

use vstd::prelude::*;

verus! {

/// The index of the last `c` in `s`, or `-1` when there is none.
pub open spec fn last_index(s: Seq<char>, c: char) -> int
    decreases s.len(),
{
    if s.len() == 0 {
        -1
    } else if s.last() == c {
        s.len() - 1
    } else {
        last_index(s.drop_last(), c)
    }
}

/// `dir` joined with `name`; an empty `dir` stands for the current directory.
pub open spec fn join_spec(dir: Seq<char>, name: Seq<char>) -> Seq<char> {
    if dir.len() == 0 {
        name
    } else {
        dir + seq!['/'] + name
    }
}

/// A file name that a path can end with: not empty, not `.` and not `..`.
pub open spec fn is_plain_name(name: Seq<char>) -> bool {
    &&& name.len() > 0
    &&& name != seq!['.']
    &&& name != seq!['.', '.']
}

pub proof fn lemma_last_index_bounds(s: Seq<char>, c: char)
    ensures
        -1 <= last_index(s, c) < s.len(),
        last_index(s, c) >= 0 ==> s[last_index(s, c)] == c,
        forall|k: int| last_index(s, c) < k < s.len() ==> s[k] != c,
    decreases s.len(),
{
    if s.len() > 0 && s.last() != c {
        lemma_last_index_bounds(s.drop_last(), c);
        assert forall|k: int| last_index(s, c) < k < s.len() implies s[k] != c by {
            if k < s.len() - 1 {
                assert(s[k] == s.drop_last()[k]);
            }
        }
    }
}

/// Where a path is split into the directory and the file name: `None` when
/// the path starts with `/` or does not end in a plain file name.
pub open spec fn split_spec(p: Seq<char>) -> Option<(Seq<char>, Seq<char>)> {
    let i = last_index(p, '/');
    let dir = if i < 0 { Seq::<char>::empty() } else { p.subrange(0, i) };
    let name = p.subrange(i + 1, p.len() as int);
    if i == 0 || !is_plain_name(name) {
        None
    } else {
        Some((dir, name))
    }
}

/// An on-disk asset path split into its directory and its file name.
pub struct AssetPath {
    pub dir: String,
    pub name: String,
}

impl AssetPath {
    pub open spec fn live_spec(&self) -> Seq<char> {
        join_spec(self.dir@, self.name@)
    }

    pub open spec fn staged_spec(&self) -> Seq<char> {
        join_spec(self.dir@, self.name@ + "-new"@)
    }

    pub open spec fn retired_spec(&self) -> Seq<char> {
        join_spec(self.dir@, self.name@ + "-old"@)
    }

    /// The live path `P`.
    pub fn live(&self) -> (r: String)
        ensures
            r@ == self.live_spec(),
    {
        join(self.dir.as_str(), self.name.as_str())
    }

    /// The staged path `P-new`, where a download lands before it is committed.
    pub fn staged(&self) -> (r: String)
        ensures
            r@ == self.staged_spec(),
    {
        let n = suffixed(self.name.as_str(), "-new");
        join(self.dir.as_str(), n.as_str())
    }

    /// The retired path `P-old`, where the previous live copy waits for cleanup.
    pub fn retired(&self) -> (r: String)
        ensures
            r@ == self.retired_spec(),
    {
        let n = suffixed(self.name.as_str(), "-old");
        join(self.dir.as_str(), n.as_str())
    }
}

/// Splits a relative path at its last `/` into directory and file name.
pub fn split_asset_path(path: &str) -> (r: Option<AssetPath>)
    ensures
        match r {
            Some(a) => split_spec(path@) == Some((a.dir@, a.name@)),
            None => split_spec(path@) is None,
        },
{
    let ghost p = path@;
    proof {
        lemma_last_index_bounds(p, '/');
    }
    let n = path.unicode_len();
    let mut i: usize = n;
    while i > 0
        invariant
            i <= n,
            n == p.len(),
            p == path@,
            forall|k: int| i <= k < n ==> p[k] != '/',
        ensures
            i == 0 || p[i - 1] == '/',
            forall|k: int| i <= k < n ==> p[k] != '/',
        decreases i,
    {
        if path.get_char(i - 1) == '/' {
            break;
        }
        i = i - 1;
    }
    if i == 1 {
        assert(last_index(p, '/') == 0);
        return None;
    }
    let dir = if i == 0 {
        assert(last_index(p, '/') == -1);
        String::new()
    } else {
        assert(last_index(p, '/') == i - 1);
        owned(path.substring_char(0, i - 1))
    };
    let name = path.substring_char(i, n);
    let len = name.unicode_len();
    let dot_name = len == 1 && name.get_char(0) == '.';
    let dots_name = len == 2 && name.get_char(0) == '.' && name.get_char(1) == '.';
    if len == 0 || dot_name || dots_name {
        assert(!is_plain_name(name@)) by {
            if len == 1 {
                assert(name@ =~= seq!['.']);
            }
            if len == 2 {
                assert(name@ =~= seq!['.', '.']);
            }
        }
        return None;
    }
    assert(is_plain_name(name@)) by {
        if name@ == seq!['.'] {
            assert(name@[0] == '.');
        }
        if name@ == seq!['.', '.'] {
            assert(name@[0] == '.' && name@[1] == '.');
        }
    }
    Some(AssetPath { dir, name: owned(name) })
}

/// An optional string as an optional sequence of characters.
pub open spec fn opt_view(o: Option<String>) -> Option<Seq<char>> {
    match o {
        Some(s) => Some(s@),
        None => None,
    }
}

/// A copy of `s` as an owned string.
pub fn owned(s: &str) -> (r: String)
    ensures
        r@ == s@,
{
    let mut r = String::new();
    r.append(s);
    r
}

/// `dir` joined with `name` by a `/`, or `name` alone when `dir` is empty.
pub fn join(dir: &str, name: &str) -> (r: String)
    ensures
        r@ == join_spec(dir@, name@),
{
    let mut r = owned(dir);
    if dir.unicode_len() > 0 {
        r.append("/");
        proof {
            reveal_strlit("/");
        }
    }
    r.append(name);
    r
}

/// `name` followed by `suffix`.
pub fn suffixed(name: &str, suffix: &str) -> (r: String)
    ensures
        r@ == name@ + suffix@,
{
    let mut r = owned(name);
    r.append(suffix);
    r
}

} // verus!
