//! One update session: reading version markers, cleaning up retired files,
//! the chat command that starts a session, and the session's summary.

use vstd::prelude::*;
use crate::paths::{AssetPath, owned};
use crate::swap::{FsOp, OpView, ops_view};
use vstd::string::StringSliceAdditionalSpecFns;
use vstd::utf8::{encode_utf8_valid_utf8, is_char_boundary, is_char_boundary_start_end_of_seq};

verus! {

/// A character of the Unicode `White_Space` property, the set that
/// `char::is_whitespace` and `str::trim` use.
pub open spec fn is_white_space(c: char) -> bool {
    ||| '\u{9}' <= c <= '\u{d}'
    ||| c == ' '
    ||| c == '\u{85}'
    ||| c == '\u{a0}'
    ||| c == '\u{1680}'
    ||| '\u{2000}' <= c <= '\u{200a}'
    ||| c == '\u{2028}'
    ||| c == '\u{2029}'
    ||| c == '\u{202f}'
    ||| c == '\u{205f}'
    ||| c == '\u{3000}'
}

pub open spec fn trim_start_spec(s: Seq<char>) -> Seq<char>
    decreases s.len(),
{
    if s.len() > 0 && is_white_space(s[0]) {
        trim_start_spec(s.drop_first())
    } else {
        s
    }
}

pub open spec fn trim_end_spec(s: Seq<char>) -> Seq<char>
    decreases s.len(),
{
    if s.len() > 0 && is_white_space(s.last()) {
        trim_end_spec(s.drop_last())
    } else {
        s
    }
}

/// `s` without leading and trailing white space.
pub open spec fn trimmed(s: Seq<char>) -> Seq<char> {
    trim_end_spec(trim_start_spec(s))
}

proof fn lemma_trim_start(s: Seq<char>, i: int)
    requires
        0 <= i <= s.len(),
        forall|k: int| 0 <= k < i ==> is_white_space(#[trigger] s[k]),
        i == s.len() || !is_white_space(s[i]),
    ensures
        trim_start_spec(s) == s.subrange(i, s.len() as int),
    decreases i,
{
    if i == 0 {
        assert(s.subrange(0, s.len() as int) =~= s);
    } else {
        let t = s.drop_first();
        assert forall|k: int| 0 <= k < i - 1 implies is_white_space(#[trigger] t[k]) by {
            assert(t[k] == s[k + 1]);
        }
        if i < s.len() {
            assert(t[i - 1] == s[i]);
        }
        lemma_trim_start(t, i - 1);
        assert(t.subrange(i - 1, t.len() as int) =~= s.subrange(i, s.len() as int));
    }
}

proof fn lemma_trim_end(s: Seq<char>, j: int)
    requires
        0 <= j <= s.len(),
        forall|k: int| j <= k < s.len() ==> is_white_space(#[trigger] s[k]),
        j == 0 || !is_white_space(s[j - 1]),
    ensures
        trim_end_spec(s) == s.subrange(0, j),
    decreases s.len() - j,
{
    if j == s.len() {
        assert(s.subrange(0, j) =~= s);
    } else {
        let t = s.drop_last();
        assert forall|k: int| j <= k < t.len() implies is_white_space(#[trigger] t[k]) by {
            assert(t[k] == s[k]);
        }
        if j > 0 {
            assert(t[j - 1] == s[j - 1]);
        }
        assert(is_white_space(s[s.len() - 1]));
        lemma_trim_end(t, j);
        assert(t.subrange(0, j) =~= s.subrange(0, j));
    }
}

fn is_white_space_exec(c: char) -> (r: bool)
    ensures
        r == is_white_space(c),
{
    ('\u{9}' <= c && c <= '\u{d}') || c == ' ' || c == '\u{85}' || c == '\u{a0}' || c
        == '\u{1680}' || ('\u{2000}' <= c && c <= '\u{200a}') || c == '\u{2028}' || c
        == '\u{2029}' || c == '\u{202f}' || c == '\u{205f}' || c == '\u{3000}'
}

/// `s` without leading and trailing white space, as `str::trim` gives it.
pub fn trim(s: &str) -> (r: String)
    ensures
        r@ == trimmed(s@),
{
    let ghost p = s@;
    let n = s.unicode_len();
    let mut i: usize = 0;
    while i < n
        invariant
            n == p.len(),
            p == s@,
            i <= n,
            forall|k: int| 0 <= k < i ==> is_white_space(#[trigger] p[k]),
        ensures
            i <= n,
            forall|k: int| 0 <= k < i ==> is_white_space(#[trigger] p[k]),
            i == n || !is_white_space(p[i as int]),
        decreases n - i,
    {
        if !is_white_space_exec(s.get_char(i)) {
            break;
        }
        i = i + 1;
    }
    proof {
        lemma_trim_start(p, i as int);
    }
    let ghost t = p.subrange(i as int, n as int);
    let mut j: usize = n;
    while j > i
        invariant
            n == p.len(),
            p == s@,
            i <= j <= n,
            forall|k: int| j <= k < n ==> is_white_space(#[trigger] p[k]),
        ensures
            i <= j <= n,
            forall|k: int| j <= k < n ==> is_white_space(#[trigger] p[k]),
            j == i || !is_white_space(p[j - 1]),
        decreases j,
    {
        if !is_white_space_exec(s.get_char(j - 1)) {
            break;
        }
        j = j - 1;
    }
    proof {
        assert forall|k: int| j - i <= k < t.len() implies is_white_space(#[trigger] t[k]) by {
            assert(t[k] == p[k + i]);
        }
        if j > i {
            assert(t[j - i - 1] == p[j - 1]);
        }
        lemma_trim_end(t, j - i);
        assert(t.subrange(0, j - i) =~= p.subrange(i as int, j as int));
    }
    owned(s.substring_char(i, j))
}

/// The version recorded in a marker file, given the file's text where it
/// could be read as UTF-8: the text without surrounding whitespace.
pub fn current_version(marker_text: &Option<String>) -> (r: Option<String>)
    ensures
        match marker_text {
            Some(t) => r is Some && r->0@ == trimmed(t@),
            None => r is None,
        },
{
    match marker_text {
        Some(t) => Some(trim(t.as_str())),
        None => None,
    }
}

/// Best-effort removal of every retired `P-old` file of a target, in order;
/// a file that is not there is not an error.
pub fn cleanup_ops(assets: &Vec<AssetPath>) -> (r: Vec<FsOp>)
    ensures
        r@.len() == assets@.len(),
        forall|i: int|
            0 <= i < assets@.len() ==> ops_view(r@)[i] == OpView::Remove(
                (#[trigger] assets@[i]).retired_spec(),
            ),
{
    let mut r: Vec<FsOp> = Vec::new();
    let mut i: usize = 0;
    while i < assets.len()
        invariant
            i <= assets@.len(),
            r@.len() == i,
            forall|k: int|
                0 <= k < i ==> ops_view(r@)[k] == OpView::Remove(
                    (#[trigger] assets@[k]).retired_spec(),
                ),
        decreases assets@.len() - i,
    {
        r.push(FsOp::Remove { path: assets[i].retired() });
        i = i + 1;
    }
    r
}

/// The chat command's verbs.
#[derive(PartialEq, Eq, Structural, Clone, Copy, Debug)]
pub enum ChatCommand {
    /// `update` or `check`: run an update session.
    Update,
    /// `crash` or `panic`: crash on purpose.
    Crash,
    /// Anything else: show the usage line.
    Usage,
}

pub open spec fn command_spec(args: Seq<Seq<char>>) -> ChatCommand {
    if args.len() == 1 && (args[0] == "update"@ || args[0] == "check"@) {
        ChatCommand::Update
    } else if args.len() == 1 && (args[0] == "crash"@ || args[0] == "panic"@) {
        ChatCommand::Crash
    } else {
        ChatCommand::Usage
    }
}

fn is_word(s: &String, w: &str) -> (r: bool)
    ensures
        r == (s@ == w@),
{
    let n = s.as_str().unicode_len();
    if n != w.unicode_len() {
        return false;
    }
    let mut i: usize = 0;
    while i < n
        invariant
            n == s@.len() == w@.len(),
            i <= n,
            forall|k: int| 0 <= k < i ==> s@[k] == w@[k],
        decreases n - i,
    {
        if s.as_str().get_char(i) != w.get_char(i) {
            return false;
        }
        i = i + 1;
    }
    assert(s@ =~= w@);
    true
}

/// Reads the chat command's arguments.
pub fn handle_command(args: &Vec<String>) -> (r: ChatCommand)
    ensures
        r == command_spec(args@.map_values(|s: String| s@)),
{
    let ghost words = args@.map_values(|s: String| s@);
    if args.len() != 1 {
        return ChatCommand::Usage;
    }
    let a = &args[0];
    assert(words[0] == a@);
    if is_word(a, "update") || is_word(a, "check") {
        ChatCommand::Update
    } else if is_word(a, "crash") || is_word(a, "panic") {
        ChatCommand::Crash
    } else {
        ChatCommand::Usage
    }
}

/// How the check of one target ended.
#[derive(PartialEq, Eq, Structural, Clone, Copy, Debug)]
pub enum TargetOutcome {
    Updated,
    UpToDate,
    Failed,
}

/// The aggregate of a session: whether any target was updated, and how many
/// failed. A failed target does not stop the others.
#[derive(PartialEq, Eq, Structural, Clone, Copy, Debug)]
pub struct SessionSummary {
    pub had_updates: bool,
    pub failures: usize,
}

pub open spec fn count_failed(s: Seq<TargetOutcome>) -> nat
    decreases s.len(),
{
    if s.len() == 0 {
        0
    } else {
        count_failed(s.drop_last()) + if s.last() == TargetOutcome::Failed {
            1nat
        } else {
            0nat
        }
    }
}

proof fn lemma_count_failed_bound(s: Seq<TargetOutcome>)
    ensures
        count_failed(s) <= s.len(),
    decreases s.len(),
{
    if s.len() > 0 {
        lemma_count_failed_bound(s.drop_last());
    }
}

/// Aggregates the outcomes of all targets of a session.
pub fn summarize(outcomes: &Vec<TargetOutcome>) -> (r: SessionSummary)
    ensures
        r.had_updates == exists|i: int|
            0 <= i < outcomes@.len() && outcomes@[i] == TargetOutcome::Updated,
        r.failures == count_failed(outcomes@),
{
    let mut had_updates = false;
    let mut failures: usize = 0;
    let mut i: usize = 0;
    while i < outcomes.len()
        invariant
            i <= outcomes@.len(),
            had_updates == exists|k: int|
                0 <= k < i && outcomes@[k] == TargetOutcome::Updated,
            failures == count_failed(outcomes@.subrange(0, i as int)),
        decreases outcomes@.len() - i,
    {
        let ghost before = outcomes@.subrange(0, i as int);
        let ghost after = outcomes@.subrange(0, i + 1);
        assert(after.drop_last() =~= before);
        proof {
            lemma_count_failed_bound(before);
        }
        match outcomes[i] {
            TargetOutcome::Updated => {
                had_updates = true;
            },
            TargetOutcome::Failed => {
                failures = failures + 1;
            },
            TargetOutcome::UpToDate => {},
        }
        i = i + 1;
    }
    assert(outcomes@.subrange(0, outcomes@.len() as int) =~= outcomes@);
    SessionSummary { had_updates, failures }
}

/// The most bytes that one line of the host's chat holds.
pub const CHAT_LINE_BYTES: usize = 255;

/// A message cut to fit one chat line: the whole message where its UTF-8
/// form fits in `CHAT_LINE_BYTES` bytes, else its longest prefix that fits
/// and ends on a character boundary.
pub fn clip_message(s: &str) -> (r: &str)
    ensures
        s.len() <= CHAT_LINE_BYTES ==> r@ == s@,
        s.len() > CHAT_LINE_BYTES ==> exists|m: int|
            0 <= m <= CHAT_LINE_BYTES && is_char_boundary(s.spec_bytes(), m) && (forall|k: int|
                m < k <= CHAT_LINE_BYTES ==> !is_char_boundary(s.spec_bytes(), k))
                && r.spec_bytes() == s.spec_bytes().subrange(0, m),
{
    let len = s.len();
    if len <= CHAT_LINE_BYTES {
        return s;
    }
    proof {
        encode_utf8_valid_utf8(s@);
        is_char_boundary_start_end_of_seq(s.spec_bytes());
    }
    let mut end: usize = CHAT_LINE_BYTES;
    loop
        invariant
            end <= CHAT_LINE_BYTES < len,
            len == s.len(),
            is_char_boundary(s.spec_bytes(), 0),
            forall|k: int| end < k <= CHAT_LINE_BYTES ==> !is_char_boundary(s.spec_bytes(), k),
        ensures
            end <= CHAT_LINE_BYTES,
            is_char_boundary(s.spec_bytes(), end as int),
            forall|k: int| end < k <= CHAT_LINE_BYTES ==> !is_char_boundary(s.spec_bytes(), k),
        decreases end,
    {
        if s.is_char_boundary(end) {
            break;
        }
        end = end - 1;
    }
    let (head, _) = s.split_at(end);
    head
}

} // verus!
