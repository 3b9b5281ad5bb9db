//! Which entries of the browser-runtime archive are extracted, and where.
//!
//! Every entry path must consist of plain components only; its first
//! component, the archive's top-level directory, is stripped and must be the
//! same for all entries of one archive. Of what remains, only an allow-list
//! of files is extracted, each to a destination made of plain names under the
//! staging directory.

use vstd::prelude::*;
use crate::paths::{is_plain_name, last_index, lemma_last_index_bounds};

verus! {

/// One component of an archive entry's path.
pub enum PathPart {
    /// A plain name.
    Normal(String),
    /// `.`
    CurDir,
    /// `..`
    ParentDir,
    /// The root `/`.
    RootDir,
    /// A drive or share prefix.
    Prefix,
}

/// Why an archive is refused.
#[derive(PartialEq, Eq, Structural, Clone, Copy, Debug)]
pub enum ArchiveError {
    /// An entry path holds a component that is not a plain name, or no
    /// component at all.
    UnsafeComponent,
    /// Entries disagree on the top-level directory.
    MixedTopLevel,
    /// An extracted shared object could not be stripped of its symbols.
    StripFailed,
}

/// The platform family whose files are extracted.
#[derive(PartialEq, Eq, Structural, Clone, Copy, Debug)]
pub enum Layout {
    /// Windows and Linux: libraries and resources flat in the bundle.
    Flat,
    /// macOS: the framework directory's contents.
    Framework,
}

/// An entry to extract: its destination under the staging directory, as
/// plain names, and whether it is a shared object to strip.
pub struct Extract {
    pub dest: Vec<String>,
    pub strip: bool,
}

/// A name that can stand as one component of a destination: plain and free
/// of separators.
pub open spec fn is_safe_name(s: Seq<char>) -> bool {
    &&& is_plain_name(s)
    &&& forall|k: int| 0 <= k < s.len() ==> s[k] != '/' && s[k] != '\\'
}

pub open spec fn is_safe_part(p: PathPart) -> bool {
    match p {
        PathPart::Normal(s) => is_safe_name(s@),
        _ => false,
    }
}

pub open spec fn part_name(p: PathPart) -> Seq<char> {
    match p {
        PathPart::Normal(s) => s@,
        _ => Seq::empty(),
    }
}

/// The extension of a file name: what follows its last `.`, where that dot
/// is not the name's first character.
pub open spec fn extension_spec(name: Seq<char>) -> Option<Seq<char>> {
    let i = last_index(name, '.');
    if i <= 0 {
        None
    } else {
        Some(name.subrange(i + 1, name.len() as int))
    }
}

/// A library or an ICU data file, kept from the `Release` directory.
pub open spec fn is_release_file(name: Seq<char>) -> bool {
    let e = extension_spec(name);
    e == Some("dll"@) || e == Some("bin"@) || e == Some("so"@)
}

/// A resource pack or data file, kept from the `Resources` directory.
pub open spec fn is_resource_file(name: Seq<char>) -> bool {
    let e = extension_spec(name);
    e == Some("pak"@) || e == Some("dat"@)
}

/// The destination of an entry, given its path below the top-level
/// directory, or `None` where it is not extracted.
pub open spec fn destination(layout: Layout, rest: Seq<Seq<char>>) -> Option<Seq<Seq<char>>> {
    if rest.len() == 0 {
        None
    } else if rest[0] == "README.txt"@ || rest[0] == "LICENSE.txt"@ {
        Some(seq![rest[0]])
    } else {
        match layout {
            Layout::Flat => {
                let last = rest.last();
                if (rest[0] == "Release"@ && is_release_file(last)) || (rest[0] == "Resources"@
                    && is_resource_file(last)) {
                    Some(rest.drop_first())
                } else {
                    None
                }
            },
            Layout::Framework => {
                if rest.len() >= 2 && rest[0] == "Release"@ && rest[1]
                    == "Chromium Embedded Framework.framework"@ {
                    Some(rest.subrange(2, rest.len() as int))
                } else {
                    None
                }
            },
        }
    }
}

/// Whether an extracted file is a shared object, to be stripped.
pub open spec fn is_stripped(layout: Layout, rest: Seq<Seq<char>>) -> bool {
    &&& layout == Layout::Flat
    &&& destination(layout, rest) is Some
    &&& rest[0] != "README.txt"@
    &&& rest[0] != "LICENSE.txt"@
    &&& extension_spec(rest.last()) == Some("so"@)
}

fn str_eq(a: &str, b: &str) -> (r: bool)
    ensures
        r == (a@ == b@),
{
    let n = a.unicode_len();
    if n != b.unicode_len() {
        return false;
    }
    let mut i: usize = 0;
    while i < n
        invariant
            n == a@.len() == b@.len(),
            i <= n,
            forall|k: int| 0 <= k < i ==> a@[k] == b@[k],
        decreases n - i,
    {
        if a.get_char(i) != b.get_char(i) {
            return false;
        }
        i = i + 1;
    }
    assert(a@ =~= b@);
    true
}

fn is_safe_name_exec(s: &str) -> (r: bool)
    ensures
        r == is_safe_name(s@),
{
    let n = s.unicode_len();
    if n == 0 {
        return false;
    }
    proof {
        reveal_strlit(".");
        reveal_strlit("..");
        assert("."@ =~= seq!['.']);
        assert(".."@ =~= seq!['.', '.']);
    }
    if str_eq(s, ".") || str_eq(s, "..") {
        return false;
    }
    let mut i: usize = 0;
    while i < n
        invariant
            n == s@.len(),
            i <= n,
            forall|k: int| 0 <= k < i ==> s@[k] != '/' && s@[k] != '\\',
        decreases n - i,
    {
        let c = s.get_char(i);
        if c == '/' || c == '\\' {
            return false;
        }
        i = i + 1;
    }
    true
}

/// The extension of `name`, see `extension_spec`.
pub fn extension(name: &str) -> (r: Option<&str>)
    ensures
        match r {
            Some(e) => extension_spec(name@) == Some(e@),
            None => extension_spec(name@) is None,
        },
{
    let ghost p = name@;
    proof {
        lemma_last_index_bounds(p, '.');
    }
    let n = name.unicode_len();
    let mut i: usize = n;
    while i > 0
        invariant
            i <= n,
            n == p.len(),
            p == name@,
            forall|k: int| i <= k < n ==> p[k] != '.',
        ensures
            i == 0 || p[i - 1] == '.',
            forall|k: int| i <= k < n ==> p[k] != '.',
        decreases i,
    {
        if name.get_char(i - 1) == '.' {
            break;
        }
        i = i - 1;
    }
    if i <= 1 {
        assert(last_index(p, '.') <= 0);
        None
    } else {
        assert(last_index(p, '.') == i - 1);
        Some(name.substring_char(i, n))
    }
}

pub open spec fn names_view(v: Seq<String>) -> Seq<Seq<char>> {
    v.map_values(|s: String| s@)
}

/// The names of `parts`, where all of them are plain.
pub open spec fn parts_names(parts: Seq<PathPart>) -> Seq<Seq<char>> {
    parts.map_values(|p: PathPart| part_name(p))
}

fn is_option_some<'a>(o: Option<&'a str>, want: &str) -> (r: bool)
    ensures
        r == (o is Some && o->0@ == want@),
{
    match o {
        Some(e) => str_eq(e, want),
        None => false,
    }
}

/// `v[from..]` as a new vector.
fn tail_from(v: &Vec<String>, from: usize) -> (r: Vec<String>)
    requires
        from <= v@.len(),
    ensures
        names_view(r@) == names_view(v@).subrange(from as int, v@.len() as int),
{
    let mut r: Vec<String> = Vec::new();
    let mut i: usize = from;
    while i < v.len()
        invariant
            from <= i <= v@.len(),
            r@.len() == i - from,
            names_view(r@) == names_view(v@).subrange(from as int, i as int),
        decreases v@.len() - i,
    {
        let ghost prev = r@;
        r.push(v[i].clone());
        proof {
            let want = names_view(v@).subrange(from as int, i + 1);
            assert(r@ == prev.push(v@[i as int]));
            assert forall|k: int| 0 <= k < r@.len() implies names_view(r@)[k] == want[k] by {
                if k < prev.len() {
                    assert(names_view(prev)[k] == names_view(v@).subrange(
                        from as int,
                        i as int,
                    )[k]);
                }
            }
            assert(names_view(r@) =~= want);
        }
        i = i + 1;
    }
    r
}

/// Where an entry goes, given its path below the top-level directory; see
/// `destination` and `is_stripped`.
pub fn entry_destination(layout: Layout, rest: &Vec<String>) -> (r: Option<Extract>)
    ensures
        match r {
            Some(x) => destination(layout, names_view(rest@)) == Some(names_view(x.dest@))
                && x.strip == is_stripped(layout, names_view(rest@)),
            None => destination(layout, names_view(rest@)) is None,
        },
{
    let ghost names = names_view(rest@);
    let n = rest.len();
    if n == 0 {
        return None;
    }
    let first = rest[0].as_str();
    if str_eq(first, "README.txt") || str_eq(first, "LICENSE.txt") {
        let dest = vec![rest[0].clone()];
        assert(names_view(dest@) =~= seq![names[0]]);
        return Some(Extract { dest, strip: false });
    }
    match layout {
        Layout::Flat => {
            let ext = extension(rest[n - 1].as_str());
            let release_file = is_option_some(ext, "dll") || is_option_some(ext, "bin")
                || is_option_some(ext, "so");
            let resource_file = is_option_some(ext, "pak") || is_option_some(ext, "dat");
            assert(names.last() == rest@[n - 1]@);
            if (str_eq(first, "Release") && release_file) || (str_eq(first, "Resources")
                && resource_file) {
                let dest = tail_from(rest, 1);
                assert(names_view(dest@) =~= names.drop_first());
                Some(Extract { dest, strip: is_option_some(ext, "so") })
            } else {
                None
            }
        },
        Layout::Framework => {
            if n >= 2 && str_eq(first, "Release") && str_eq(
                rest[1].as_str(),
                "Chromium Embedded Framework.framework",
            ) {
                let dest = tail_from(rest, 2);
                Some(Extract { dest, strip: false })
            } else {
                None
            }
        },
    }
}

/// The state of one archive's scan: its layout and the top-level directory
/// of the entries seen so far.
pub struct ArchiveScan {
    pub layout: Layout,
    pub top: Option<String>,
}

impl ArchiveScan {
    pub fn new(layout: Layout) -> (r: Self)
        ensures
            r.layout == layout,
            r.top is None,
    {
        ArchiveScan { layout, top: None }
    }

    /// Classifies the next entry of the archive by its path components.
    /// Refuses an entry whose first component is missing or not plain, whose
    /// top-level directory differs from an earlier entry's, or which has a
    /// component that is not plain; otherwise says where it is extracted,
    /// if at all. A refusal ends the extraction of the whole archive.
    pub fn entry(&mut self, parts: &Vec<PathPart>) -> (r: Result<Option<Extract>, ArchiveError>)
        ensures
            final(self).layout == old(self).layout,
            parts@.len() == 0 || !is_safe_part(parts@[0]) ==> r == Err::<Option<Extract>, ArchiveError>(ArchiveError::UnsafeComponent),
            parts@.len() > 0 && is_safe_part(parts@[0]) ==> {
                let top = part_name(parts@[0]);
                let rest = parts@.drop_first();
                if old(self).top is Some && old(self).top->0@ != top {
                    r == Err::<Option<Extract>, ArchiveError>(ArchiveError::MixedTopLevel)
                } else if exists|k: int| 0 <= k < rest.len() && !is_safe_part(#[trigger] rest[k]) {
                    r == Err::<Option<Extract>, ArchiveError>(ArchiveError::UnsafeComponent)
                } else {
                    &&& final(self).top is Some
                    &&& final(self).top->0@ == top
                    &&& match r {
                        Ok(Some(x)) => destination(old(self).layout, parts_names(rest)) == Some(
                            names_view(x.dest@),
                        ) && x.strip == is_stripped(old(self).layout, parts_names(rest)),
                        Ok(None) => destination(old(self).layout, parts_names(rest)) is None,
                        Err(_) => false,
                    }
                }
            },
    {
        let n = parts.len();
        if n == 0 {
            return Err(ArchiveError::UnsafeComponent);
        }
        let first = match &parts[0] {
            PathPart::Normal(s) => s,
            _ => {
                return Err(ArchiveError::UnsafeComponent);
            },
        };
        if !is_safe_name_exec(first.as_str()) {
            return Err(ArchiveError::UnsafeComponent);
        }
        match &self.top {
            Some(t) => {
                if !t.eq(first) {
                    return Err(ArchiveError::MixedTopLevel);
                }
            },
            None => {
                self.top = Some(first.clone());
            },
        }
        let ghost rest_parts = parts@.drop_first();
        let mut rest: Vec<String> = Vec::new();
        let mut i: usize = 1;
        while i < n
            invariant
                n == parts@.len(),
                rest_parts == parts@.drop_first(),
                self.layout == old(self).layout,
                is_safe_part(parts@[0]),
                self.top is Some,
                self.top->0@ == part_name(parts@[0]),
                old(self).top is Some ==> old(self).top->0@ == part_name(parts@[0]),
                1 <= i <= n,
                rest@.len() == i - 1,
                forall|k: int| 0 <= k < i - 1 ==> is_safe_part(#[trigger] rest_parts[k]),
                names_view(rest@) == parts_names(rest_parts).subrange(0, i - 1),
            decreases n - i,
        {
            match &parts[i] {
                PathPart::Normal(s) => {
                    if !is_safe_name_exec(s.as_str()) {
                        assert(!is_safe_part(rest_parts[i - 1]));
                        return Err(ArchiveError::UnsafeComponent);
                    }
                    rest.push(s.clone());
                },
                _ => {
                    assert(!is_safe_part(rest_parts[i - 1]));
                    return Err(ArchiveError::UnsafeComponent);
                },
            }
            proof {
                assert(names_view(rest@) =~= parts_names(rest_parts).subrange(0, i as int));
            }
            i = i + 1;
        }
        assert(names_view(rest@) =~= parts_names(rest_parts));
        Ok(entry_destination(self.layout, &rest))
    }
}

/// Whether the symbol strip of an extracted shared object fails the
/// extraction: any strip that could not be started, or that reported
/// failure, does; an unstripped shared object is never shipped.
pub fn strip_outcome(ran: bool, succeeded: bool) -> (r: Result<(), ArchiveError>)
    ensures
        r is Err <==> !(ran && succeeded),
        r is Err ==> r == Err::<(), ArchiveError>(ArchiveError::StripFailed),
{
    if !(ran && succeeded) {
        Err(ArchiveError::StripFailed)
    } else {
        Ok(())
    }
}

/// Every extracted entry lands under the staging directory: its destination
/// is made of plain names only, none of them `.`, `..` or holding a separator.
pub proof fn destinations_stay_in_staging(layout: Layout, rest: Seq<Seq<char>>)
    requires
        forall|k: int| 0 <= k < rest.len() ==> is_safe_name(#[trigger] rest[k]),
    ensures
        destination(layout, rest) is Some ==> forall|k: int|
            0 <= k < destination(layout, rest)->0.len() ==> is_safe_name(
                #[trigger] destination(layout, rest)->0[k],
            ),
{
    if destination(layout, rest) is Some {
        let d = destination(layout, rest)->0;
        assert forall|k: int| 0 <= k < d.len() implies is_safe_name(#[trigger] d[k]) by {
            if rest[0] == "README.txt"@ || rest[0] == "LICENSE.txt"@ {
                assert(d[k] == rest[0]);
            } else if layout == Layout::Flat {
                assert(d[k] == rest[k + 1]);
            } else {
                assert(d[k] == rest[k + 2]);
            }
        }
    }
}

} // verus!
