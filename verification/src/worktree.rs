//! The worktree manager's decisions: the managed root under a repository, the
//! per-session worktree path, the porcelain listing parser, and which managed
//! worktrees a reconciliation removes. Running the `git` toolchain itself is
//! the host's part.

use vstd::prelude::*;
use vstd::string::*;

use crate::text::str_eq;

verus! {

/// One worktree from `git worktree list --porcelain`.
pub struct WorktreeEntry {
    pub path: String,
    pub prunable: bool,
}

/// The mathematical value of a listing entry.
pub struct WorktreeEntryV {
    pub path: Seq<char>,
    pub prunable: bool,
}

impl View for WorktreeEntry {
    type V = WorktreeEntryV;

    open spec fn view(&self) -> WorktreeEntryV {
        WorktreeEntryV { path: self.path@, prunable: self.prunable }
    }
}

/// The managed worktree root of a repository.
pub open spec fn spec_worktrees_root(repo_root: Seq<char>) -> Seq<char> {
    repo_root + "/.lulu/worktrees"@
}

/// The worktree path of one session under a managed root.
pub open spec fn spec_worktree_path(worktrees_root: Seq<char>, session_id: Seq<char>) -> Seq<char> {
    worktrees_root + "/"@ + session_id
}

/// Manages the per-session worktrees of one repository.
pub struct WorktreeService {
    repo_root: String,
    worktrees_root: String,
}

/// The mathematical value of the service: the two roots.
pub struct WorktreeServiceV {
    pub repo_root: Seq<char>,
    pub worktrees_root: Seq<char>,
}

impl View for WorktreeService {
    type V = WorktreeServiceV;

    closed spec fn view(&self) -> WorktreeServiceV {
        WorktreeServiceV { repo_root: self.repo_root@, worktrees_root: self.worktrees_root@ }
    }
}

impl WorktreeService {
    /// A service rooted at the repository: worktrees live under
    /// `<repo_root>/.lulu/worktrees`.
    pub fn new(repo_root: &str) -> (r: WorktreeService)
        ensures
            r@.repo_root == repo_root@,
            r@.worktrees_root == spec_worktrees_root(repo_root@),
    {
        let mut worktrees_root = String::from_str(repo_root);
        worktrees_root.append("/.lulu/worktrees");
        WorktreeService { repo_root: String::from_str(repo_root), worktrees_root: worktrees_root }
    }

    /// The repository root.
    pub fn repo_root(&self) -> (r: &str)
        ensures
            r@ == self@.repo_root,
    {
        self.repo_root.as_str()
    }

    /// The managed root the session worktrees live under.
    pub fn worktrees_root(&self) -> (r: &str)
        ensures
            r@ == self@.worktrees_root,
    {
        self.worktrees_root.as_str()
    }

    /// The worktree path of one session: `<managed root>/<session_id>`.
    pub fn worktree_path_for_session(&self, session_id: &str) -> (r: String)
        ensures
            r@ == spec_worktree_path(self@.worktrees_root, session_id@),
    {
        let mut path = self.worktrees_root.clone();
        path.append("/");
        path.append(session_id);
        path
    }
}

/// Distinct sessions get distinct worktree paths under one managed root, so
/// removing one session's worktree can never name a sibling's.
pub proof fn lemma_worktree_paths_distinct(root: Seq<char>, a: Seq<char>, b: Seq<char>)
    requires
        a != b,
    ensures
        spec_worktree_path(root, a) != spec_worktree_path(root, b),
{
    let pa = spec_worktree_path(root, a);
    let pb = spec_worktree_path(root, b);
    if pa == pb {
        assert(pa.len() == pb.len());
        let base = (root + "/"@).len();
        assert(a.len() == b.len());
        assert forall|k: int| 0 <= k < a.len() implies a[k] == b[k] by {
            assert(pa[base + k] == a[k]);
            assert(pb[base + k] == b[k]);
        }
        assert(a =~= b);
    }
}

/// Whether `s` starts with `prefix`.
pub open spec fn spec_starts_with(s: Seq<char>, prefix: Seq<char>) -> bool {
    s.len() >= prefix.len() && s.take(prefix.len() as int) == prefix
}

/// Executable prefix test.
pub fn str_starts_with(s: &str, prefix: &str) -> (r: bool)
    ensures
        r == spec_starts_with(s@, prefix@),
{
    let n = s.unicode_len();
    let p = prefix.unicode_len();
    if n < p {
        return false;
    }
    let head = s.substring_char(0, p);
    let r = str_eq(head, prefix);
    proof {
        assert(s@.subrange(0, p as int) =~= s@.take(p as int));
    }
    r
}

/// One line of porcelain output folded into the scan state: a `worktree `
/// line closes the pending entry and opens a new one; a `prunable` line marks
/// the pending entry.
pub open spec fn spec_porcelain_step(
    pending: Option<WorktreeEntryV>,
    acc: Seq<WorktreeEntryV>,
    line: Seq<char>,
) -> (Option<WorktreeEntryV>, Seq<WorktreeEntryV>) {
    if spec_starts_with(line, "worktree "@) {
        let opened = WorktreeEntryV { path: line.skip("worktree "@.len() as int), prunable: false };
        match pending {
            Some(e) => (Some(opened), acc.push(e)),
            None => (Some(opened), acc),
        }
    } else if spec_starts_with(line, "prunable"@) {
        match pending {
            Some(e) => (Some(WorktreeEntryV { prunable: true, ..e }), acc),
            None => (None, acc),
        }
    } else {
        (pending, acc)
    }
}

/// The porcelain listing folded from line `i` on.
pub open spec fn spec_porcelain_from(
    lines: Seq<Seq<char>>,
    i: int,
    pending: Option<WorktreeEntryV>,
    acc: Seq<WorktreeEntryV>,
) -> Seq<WorktreeEntryV>
    decreases lines.len() - i,
{
    if i < 0 || i >= lines.len() {
        match pending {
            Some(e) => acc.push(e),
            None => acc,
        }
    } else {
        let (pending2, acc2) = spec_porcelain_step(pending, acc, lines[i]);
        spec_porcelain_from(lines, i + 1, pending2, acc2)
    }
}

/// The newline-separated lines of a text, scanned from position `i`.
pub open spec fn spec_lines_from(
    s: Seq<char>,
    i: int,
    cur: Seq<char>,
    acc: Seq<Seq<char>>,
) -> Seq<Seq<char>>
    decreases s.len() - i,
{
    if i < 0 || i >= s.len() {
        if cur.len() > 0 {
            acc.push(cur)
        } else {
            acc
        }
    } else if s[i] == '\n' {
        spec_lines_from(s, i + 1, Seq::empty(), acc.push(cur))
    } else {
        spec_lines_from(s, i + 1, cur.push(s[i]), acc)
    }
}

/// The newline-separated lines of a text; a trailing newline adds no line.
pub open spec fn spec_lines(s: Seq<char>) -> Seq<Seq<char>> {
    spec_lines_from(s, 0, Seq::empty(), Seq::empty())
}

/// Splits a text at its newlines.
pub fn split_lines(s: &str) -> (r: Vec<String>)
    ensures
        r.deep_view() == spec_lines(s@),
{
    let len = s.unicode_len();
    let mut acc: Vec<String> = Vec::new();
    let mut cur = String::new();
    let mut i: usize = 0;
    proof {
        assert(acc.deep_view() =~= Seq::<Seq<char>>::empty());
    }
    while i < len
        invariant
            len == s@.len(),
            i <= len,
            spec_lines(s@) == spec_lines_from(s@, i as int, cur@, acc.deep_view()),
        decreases len - i,
    {
        let c = s.get_char(i);
        if c == '\n' {
            let ghost acc0 = acc.deep_view();
            let ghost cur0 = cur@;
            let done = cur;
            cur = String::new();
            acc.push(done);
            proof {
                assert(acc.deep_view() =~= acc0.push(cur0));
            }
        } else {
            crate::text::push_char(&mut cur, c);
        }
        i = i + 1;
    }
    if cur.unicode_len() > 0 {
        let ghost acc0 = acc.deep_view();
        let ghost cur0 = cur@;
        acc.push(cur);
        proof {
            assert(acc.deep_view() =~= acc0.push(cur0));
        }
    }
    acc
}

/// The listing that the porcelain text describes.
pub open spec fn spec_parse_worktree_list(porcelain: Seq<char>) -> Seq<WorktreeEntryV> {
    spec_porcelain_from(spec_lines(porcelain), 0, None, Seq::empty())
}

/// Parses `git worktree list --porcelain` output into `{path, prunable}`
/// entries.
pub fn parse_worktree_list(porcelain: &str) -> (r: Vec<WorktreeEntry>)
    ensures
        r@.map_values(|e: WorktreeEntry| e@) == spec_parse_worktree_list(porcelain@),
{
    let lines = split_lines(porcelain);
    let n = lines.len();
    let mut acc: Vec<WorktreeEntry> = Vec::new();
    let mut pending: Option<WorktreeEntry> = None;
    let mut i: usize = 0;
    proof {
        assert(acc@.map_values(|e: WorktreeEntry| e@) =~= Seq::<WorktreeEntryV>::empty());
        assert(lines.deep_view() == spec_lines(porcelain@));
    }
    while i < n
        invariant
            n == lines.deep_view().len(),
            n == lines@.len(),
            i <= n,
            forall|j: int| 0 <= j < n ==> (#[trigger] lines@[j])@ == lines.deep_view()[j],
            spec_parse_worktree_list(porcelain@) == spec_porcelain_from(
                lines.deep_view(),
                i as int,
                match pending {
                    Some(e) => Some(e@),
                    None => None,
                },
                acc@.map_values(|e: WorktreeEntry| e@),
            ),
        decreases n - i,
    {
        let ghost acc0 = acc@.map_values(|e: WorktreeEntry| e@);
        let line = &lines[i];
        if str_starts_with(line.as_str(), "worktree ") {
            let plen = "worktree ".unicode_len();
            let path = line.as_str().substring_char(plen, line.as_str().unicode_len());
            let opened = WorktreeEntry { path: String::from_str(path), prunable: false };
            proof {
                assert(path@ =~= lines.deep_view()[i as int].skip("worktree "@.len() as int));
            }
            let prev = pending;
            pending = Some(opened);
            if let Some(e) = prev {
                let ghost ev = e@;
                acc.push(e);
                proof {
                    assert(acc@.map_values(|e: WorktreeEntry| e@) =~= acc0.push(ev));
                }
            }
        } else if str_starts_with(line.as_str(), "prunable") {
            pending = match pending {
                Some(e) => Some(WorktreeEntry { path: e.path, prunable: true }),
                None => None,
            };
        }
        i = i + 1;
    }
    if let Some(e) = pending {
        let ghost acc0 = acc@.map_values(|e: WorktreeEntry| e@);
        let ghost ev = e@;
        acc.push(e);
        proof {
            assert(acc@.map_values(|e: WorktreeEntry| e@) =~= acc0.push(ev));
        }
    }
    acc
}

/// Whether a reconciliation keeps a listed worktree: it must be expected, not
/// prunable, and still on disk.
pub open spec fn spec_keep_worktree(
    entry: WorktreeEntryV,
    exists: bool,
    expected: Seq<Seq<char>>,
) -> bool {
    expected.contains(entry.path) && !entry.prunable && exists
}

/// The paths a reconciliation removes among the first `j` listed worktrees:
/// every managed worktree that is not kept and still exists on disk.
pub open spec fn spec_removals_upto(
    entries: Seq<(WorktreeEntryV, bool)>,
    root: Seq<char>,
    expected: Seq<Seq<char>>,
    j: int,
) -> Seq<Seq<char>>
    decreases j,
{
    if j <= 0 {
        Seq::empty()
    } else {
        let rest = spec_removals_upto(entries, root, expected, j - 1);
        let (entry, exists) = entries[j - 1];
        if spec_starts_with(entry.path, root) && !spec_keep_worktree(entry, exists, expected)
            && exists {
            rest.push(entry.path)
        } else {
            rest
        }
    }
}

/// The paths a reconciliation removes.
pub open spec fn spec_worktree_removals(
    entries: Seq<(WorktreeEntryV, bool)>,
    root: Seq<char>,
    expected: Seq<Seq<char>>,
) -> Seq<Seq<char>> {
    spec_removals_upto(entries, root, expected, entries.len() as int)
}

/// Decides which managed worktrees a reconciliation removes from disk: each
/// listed worktree under the managed root, paired with whether its directory
/// still exists, is kept if and only if it is expected, not prunable, and
/// exists; every other existing managed directory is removed. Unmanaged
/// worktrees are never touched.
pub fn worktree_removal_paths(
    entries: &Vec<(WorktreeEntry, bool)>,
    worktrees_root: &str,
    expected: &Vec<String>,
) -> (r: Vec<String>)
    ensures
        r.deep_view() == spec_worktree_removals(
            entries@.map_values(|p: (WorktreeEntry, bool)| (p.0@, p.1)),
            worktrees_root@,
            expected.deep_view(),
        ),
{
    let ghost ev = entries@.map_values(|p: (WorktreeEntry, bool)| (p.0@, p.1));
    let n = entries.len();
    let mut out: Vec<String> = Vec::new();
    let mut i: usize = 0;
    proof {
        assert(out.deep_view() =~= Seq::<Seq<char>>::empty());
    }
    while i < n
        invariant
            n == ev.len(),
            n == entries@.len(),
            i <= n,
            forall|j: int| 0 <= j < n ==> #[trigger] ev[j] == (entries@[j].0@, entries@[j].1),
            out.deep_view() == spec_removals_upto(ev, worktrees_root@, expected.deep_view(), i as int),
        decreases n - i,
    {
        let entry = &entries[i].0;
        let exists = entries[i].1;
        let managed = str_starts_with(entry.path.as_str(), worktrees_root);
        let keep = contains_string(expected, entry.path.as_str()) && !entry.prunable && exists;
        proof {
            assert(ev[i as int] == (entries@[i as int].0@, entries@[i as int].1));
        }
        if managed && !keep && exists {
            let ghost out0 = out.deep_view();
            out.push(entry.path.clone());
            proof {
                assert(out.deep_view() =~= out0.push(ev[i as int].0.path));
            }
        }
        i = i + 1;
    }
    out
}

/// Whether the vector holds the string.
pub fn contains_string(haystack: &Vec<String>, needle: &str) -> (r: bool)
    ensures
        r == haystack.deep_view().contains(needle@),
{
    let n = haystack.len();
    let mut i: usize = 0;
    while i < n
        invariant
            n == haystack@.len(),
            forall|j: int| 0 <= j < n ==> #[trigger] haystack.deep_view()[j] == haystack@[j]@,
            haystack.deep_view().len() == n,
            i <= n,
            forall|j: int| 0 <= j < i ==> #[trigger] haystack.deep_view()[j] != needle@,
        decreases n - i,
    {
        if str_eq(haystack[i].as_str(), needle) {
            proof {
                assert(haystack.deep_view()[i as int] == needle@);
            }
            return true;
        }
        i = i + 1;
    }
    proof {
        if haystack.deep_view().contains(needle@) {
            let j = choose|j: int|
                0 <= j < haystack.deep_view().len() && #[trigger] haystack.deep_view()[j]
                    == needle@;
        }
    }
    false
}

} // verus!
