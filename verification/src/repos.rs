//! Git repositories found on disk: what the dashboard records of each, and
//! how that record is read off the output of `git`.

use vstd::prelude::*;
use vstd::string::*;
use vstd::multiset::Multiset;
use crate::text::{
    chars_of, decimal, digit_value, has_visible, is_visible, lemma_decimal_digits,
    lemma_parse_decimal_round_trip, opt_text, parse_u32, spec_is_whitespace, spec_parse_u32,
    split_words, text_or, words,
};

verus! {

/// One git repository as the dashboard shows it. `path` holds the
/// directory's path as text.
#[derive(Clone, Debug)]
pub struct RepoInfo {
    pub name: String,
    pub path: String,
    pub branch: String,
    pub dirty: bool,
    pub ahead: u32,
    pub behind: u32,
    pub last_commit: String,
    pub remote_url: String,
}

/// A count as `parse().unwrap_or(0)` reads it.
pub open spec fn count_or_zero(w: Seq<char>) -> u32 {
    match spec_parse_u32(w) {
        Some(v) => v,
        None => 0,
    }
}

/// The (ahead, behind) pair read off the output of
/// `git rev-list --left-right --count HEAD...@{upstream}`: two
/// whitespace-separated counts, each 0 where it does not parse; (0, 0) where
/// there is no output or it does not hold exactly two words.
pub open spec fn ahead_behind_of(out: Option<Seq<char>>) -> (u32, u32) {
    match out {
        Some(s) => {
            let w = words(s);
            if w.len() == 2 {
                (count_or_zero(w[0]), count_or_zero(w[1]))
            } else {
                (0, 0)
            }
        },
        None => (0, 0),
    }
}

/// Reads the (ahead, behind) counts off the output of `git rev-list`.
pub fn git_ahead_behind(out: Option<String>) -> (r: (u32, u32))
    ensures
        r == ahead_behind_of(opt_text(out)),
{
    match out {
        Some(s) => {
            let cs = chars_of(s.as_str());
            let parts = split_words(&cs);
            if parts.len() == 2 {
                assert(parts[0]@ == parts.deep_view()[0]);
                assert(parts[1]@ == parts.deep_view()[1]);
                let ahead = match parse_u32(&parts[0]) {
                    Some(v) => v,
                    None => 0,
                };
                let behind = match parse_u32(&parts[1]) {
                    Some(v) => v,
                    None => 0,
                };
                (ahead, behind)
            } else {
                (0, 0)
            }
        },
        None => (0, 0),
    }
}

proof fn lemma_words_after_space(s: Seq<char>, c: char)
    requires
        spec_is_whitespace(c),
    ensures
        words(s.push(c)) == words(s),
{
    assert(s.push(c).drop_last() =~= s);
}

proof fn lemma_words_append_word(s: Seq<char>, w: Seq<char>)
    requires
        s.len() == 0 || spec_is_whitespace(s.last()),
        w.len() > 0,
        forall|k: int| 0 <= k < w.len() ==> !spec_is_whitespace(#[trigger] w[k]),
    ensures
        words(s + w) == words(s).push(w),
    decreases w.len(),
{
    let t = s + w;
    assert(t.drop_last() =~= s + w.drop_last());
    assert(t.last() == w.last());
    if w.len() == 1 {
        assert(s + w.drop_last() =~= s);
        assert(seq![w.last()] =~= w);
        if s.len() > 0 {
            assert(t[t.len() - 2] == s.last());
        }
    } else {
        lemma_words_append_word(s, w.drop_last());
        assert(t[t.len() - 2] == w[w.len() - 2]);
        assert(w.drop_last().push(w.last()) =~= w);
        assert(words(s).push(w.drop_last()).update(words(s).len() as int, w) =~= words(s).push(w));
    }
}

/// Reading back what `git rev-list --left-right --count` prints: for any
/// two counts, the line `{ahead}\t{behind}\n` is read as exactly those
/// counts.
pub proof fn lemma_counts_read_back(ahead: u32, behind: u32)
    ensures
        ahead_behind_of(Some(decimal(ahead as nat) + seq!['\t'] + decimal(behind as nat) + seq!['\n']))
            == (ahead, behind),
{
    let da = decimal(ahead as nat);
    let db = decimal(behind as nat);
    lemma_decimal_digits(ahead as nat);
    lemma_decimal_digits(behind as nat);
    lemma_parse_decimal_round_trip(ahead);
    lemma_parse_decimal_round_trip(behind);
    assert forall|k: int| 0 <= k < da.len() implies !spec_is_whitespace(#[trigger] da[k]) by {
        assert(digit_value(da[k]) is Some);
    }
    assert forall|k: int| 0 <= k < db.len() implies !spec_is_whitespace(#[trigger] db[k]) by {
        assert(digit_value(db[k]) is Some);
    }
    let e = Seq::<char>::empty();
    lemma_words_append_word(e, da);
    assert(e + da =~= da);
    lemma_words_after_space(da, '\t');
    let s1 = da.push('\t');
    lemma_words_append_word(s1, db);
    lemma_words_after_space(s1 + db, '\n');
    assert(da + seq!['\t'] + db + seq!['\n'] =~= (s1 + db).push('\n'));
    let w = words(da + seq!['\t'] + db + seq!['\n']);
    assert(w =~= seq![da, db]);
}

/// Builds the record of the repository named `name` at `path` from the
/// outputs of the `git` commands run in it (each `None` where the command
/// failed): the branch (`"unknown"` without output), whether the working
/// tree is dirty (the status output holds a visible character), the ahead
/// and behind counts, the last commit's subject (`"no commits"` without
/// output) and the origin URL (empty without output). Without a name there
/// is no record.
pub fn repo_info(
    name: Option<String>,
    path: String,
    branch_out: Option<String>,
    status_out: Option<String>,
    counts_out: Option<String>,
    commit_out: Option<String>,
    remote_out: Option<String>,
) -> (r: Option<RepoInfo>)
    ensures
        name is None ==> r is None,
        name is Some ==> r is Some,
        r matches Some(info) ==> {
            &&& info.name@ == name->0@
            &&& info.path@ == path@
            &&& info.branch@ == text_or(branch_out, "unknown"@)
            &&& info.dirty == (status_out matches Some(st) && has_visible(st@))
            &&& (info.ahead, info.behind) == ahead_behind_of(opt_text(counts_out))
            &&& info.last_commit@ == text_or(commit_out, "no commits"@)
            &&& info.remote_url@ == text_or(remote_out, Seq::<char>::empty())
        },
{
    let name = match name {
        Some(n) => n,
        None => return None,
    };
    let branch = match branch_out {
        Some(b) => b,
        None => "unknown".to_owned(),
    };
    let dirty = match &status_out {
        Some(st) => is_visible(st.as_str()),
        None => false,
    };
    let (ahead, behind) = git_ahead_behind(counts_out);
    let last_commit = match commit_out {
        Some(c) => c,
        None => "no commits".to_owned(),
    };
    let remote_url = match remote_out {
        Some(u) => u,
        None => String::new(),
    };
    Some(RepoInfo { name, path, branch, dirty, ahead, behind, last_commit, remote_url })
}

/// `a` sorts before or with `b`: character by character, by code point,
/// a prefix first. This is the order of the texts' UTF-8 bytes, which is
/// how `String` compares.
pub open spec fn text_le(a: Seq<char>, b: Seq<char>) -> bool
    decreases a.len(),
{
    if a.len() == 0 {
        true
    } else if b.len() == 0 {
        false
    } else if (a[0] as u32) < (b[0] as u32) {
        true
    } else if (a[0] as u32) > (b[0] as u32) {
        false
    } else {
        text_le(a.drop_first(), b.drop_first())
    }
}

/// Any two texts are ordered one way or the other.
pub proof fn lemma_text_le_total(a: Seq<char>, b: Seq<char>)
    ensures
        text_le(a, b) || text_le(b, a),
    decreases a.len(),
{
    if a.len() > 0 && b.len() > 0 && (a[0] as u32) == (b[0] as u32) {
        lemma_text_le_total(a.drop_first(), b.drop_first());
    }
}

/// The order is transitive.
pub proof fn lemma_text_le_transitive(a: Seq<char>, b: Seq<char>, c: Seq<char>)
    requires
        text_le(a, b),
        text_le(b, c),
    ensures
        text_le(a, c),
    decreases a.len(),
{
    if a.len() > 0 && b.len() > 0 && c.len() > 0 && (a[0] as u32) == (b[0] as u32) && (b[0] as u32)
        == (c[0] as u32) {
        lemma_text_le_transitive(a.drop_first(), b.drop_first(), c.drop_first());
    }
}

/// The order is that of the first character where two texts differ,
/// compared by code point: whatever precedes and follows, a text whose
/// first differing character has the smaller code point sorts strictly
/// first.
pub proof fn lemma_text_le_first_difference(
    s: Seq<char>,
    x: char,
    y: char,
    t: Seq<char>,
    u: Seq<char>,
)
    requires
        (x as u32) < (y as u32),
    ensures
        text_le(s + seq![x] + t, s + seq![y] + u),
        !text_le(s + seq![y] + u, s + seq![x] + t),
    decreases s.len(),
{
    let a = s + seq![x] + t;
    let b = s + seq![y] + u;
    if s.len() == 0 {
        assert(a[0] == x);
        assert(b[0] == y);
    } else {
        lemma_text_le_first_difference(s.drop_first(), x, y, t, u);
        assert(a[0] == s[0]);
        assert(b[0] == s[0]);
        assert(a.drop_first() =~= s.drop_first() + seq![x] + t);
        assert(b.drop_first() =~= s.drop_first() + seq![y] + u);
    }
}

/// A text sorts before anything it is a prefix of, and strictly before
/// any longer text it begins.
pub proof fn lemma_text_le_prefix(s: Seq<char>, t: Seq<char>)
    ensures
        text_le(s, s + t),
        t.len() > 0 ==> !text_le(s + t, s),
    decreases s.len(),
{
    if s.len() > 0 {
        lemma_text_le_prefix(s.drop_first(), t);
        assert((s + t)[0] == s[0]);
        assert((s + t).drop_first() =~= s.drop_first() + t);
    }
}

/// The scan's rule, entry by entry: files are passed over; directories
/// whose name starts with `.` are passed over whether or not they hold
/// `.git`; any other directory is a repository when it holds `.git` and is
/// searched otherwise.
pub proof fn lemma_scan_rule(is_dir: bool, name: Option<Seq<char>>, has_git_dir: bool)
    ensures
        !is_dir ==> entry_kind(is_dir, name, has_git_dir) == EntryKind::Skip,
        (name matches Some(n) && n.len() > 0 && n[0] == '.') ==> entry_kind(
            is_dir,
            name,
            has_git_dir,
        ) == EntryKind::Skip,
        is_dir && !(name matches Some(n) && n.len() > 0 && n[0] == '.') && has_git_dir
            ==> entry_kind(is_dir, name, has_git_dir) == EntryKind::Repository,
        is_dir && !(name matches Some(n) && n.len() > 0 && n[0] == '.') && !has_git_dir
            ==> entry_kind(is_dir, name, has_git_dir) == EntryKind::Directory,
{
}

/// Whether `a` sorts strictly after `b`.
pub fn sorts_after(a: &str, b: &str) -> (r: bool)
    ensures
        r == !text_le(a@, b@),
{
    let ac = chars_of(a);
    let bc = chars_of(b);
    let la = ac.len();
    let lb = bc.len();
    let mut i: usize = 0;
    assert(a@.skip(0) =~= a@);
    assert(b@.skip(0) =~= b@);
    while i < la && i < lb
        invariant
            ac@ == a@,
            bc@ == b@,
            la == a@.len(),
            lb == b@.len(),
            i <= la,
            i <= lb,
            text_le(a@, b@) == text_le(a@.skip(i as int), b@.skip(i as int)),
        decreases la - i,
    {
        assert(a@.skip(i as int)[0] == ac@[i as int]);
        assert(b@.skip(i as int)[0] == bc@[i as int]);
        let ca = ac[i] as u32;
        let cb = bc[i] as u32;
        if ca != cb {
            return ca > cb;
        }
        assert(a@.skip(i as int).drop_first() =~= a@.skip(i + 1));
        assert(b@.skip(i as int).drop_first() =~= b@.skip(i + 1));
        i = i + 1;
    }
    la > lb
}

/// The records are in order of their names.
pub open spec fn sorted_by_name(s: Seq<RepoInfo>) -> bool {
    forall|i: int, j: int| 0 <= i < j < s.len() ==> text_le(#[trigger] s[i].name@, #[trigger] s[j].name@)
}

/// The records named `n`.
pub open spec fn named(n: Seq<char>) -> spec_fn(RepoInfo) -> bool {
    |y: RepoInfo| y.name@ == n
}

proof fn lemma_text_le_reflexive(a: Seq<char>)
    ensures
        text_le(a, a),
    decreases a.len(),
{
    if a.len() > 0 {
        lemma_text_le_reflexive(a.drop_first());
    }
}

proof fn lemma_filter_none(s: Seq<RepoInfo>, n: Seq<char>)
    requires
        forall|k: int| 0 <= k < s.len() ==> (#[trigger] s[k]).name@ != n,
    ensures
        s.filter(named(n)) == Seq::<RepoInfo>::empty(),
    decreases s.len(),
{
    reveal(Seq::filter);
    if s.len() > 0 {
        lemma_filter_none(s.drop_last(), n);
    }
}

proof fn lemma_filter_insert(s: Seq<RepoInfo>, j: int, x: RepoInfo, n: Seq<char>)
    requires
        0 <= j <= s.len(),
        x.name@ == n ==> forall|k: int| j <= k < s.len() ==> (#[trigger] s[k]).name@ != n,
    ensures
        s.insert(j, x).filter(named(n)) == (if x.name@ == n {
            s.filter(named(n)).push(x)
        } else {
            s.filter(named(n))
        }),
{
    let p = named(n);
    let a = s.take(j);
    let b = s.skip(j);
    assert(s =~= a + b);
    assert(s.insert(j, x) =~= a + (seq![x] + b));
    Seq::filter_distributes_over_add(a, b, p);
    Seq::filter_distributes_over_add(a, seq![x] + b, p);
    b.lemma_filter_prepend(x, p);
    if x.name@ == n {
        lemma_filter_none(b, n);
        assert(b.filter(p) == Seq::<RepoInfo>::empty());
        assert(a.filter(p) + Seq::<RepoInfo>::empty() =~= a.filter(p));
        assert(a.filter(p) + (seq![x] + Seq::<RepoInfo>::empty()) =~= a.filter(p).push(x));
    } else {
        assert(Seq::<RepoInfo>::empty() + b.filter(p) =~= b.filter(p));
    }
}

proof fn lemma_filter_front(s: Seq<RepoInfo>, n: Seq<char>)
    requires
        s.len() > 0,
    ensures
        s.filter(named(n)) == (if s[0].name@ == n {
            seq![s[0]]
        } else {
            Seq::<RepoInfo>::empty()
        }) + s.drop_first().filter(named(n)),
{
    assert(s =~= seq![s[0]] + s.drop_first());
    s.drop_first().lemma_filter_prepend(s[0], named(n));
}

/// Sorts the records by name, as the repository list is shown.
pub fn sort_by_name(repos: Vec<RepoInfo>) -> (r: Vec<RepoInfo>)
    ensures
        sorted_by_name(r@),
        r@.to_multiset() == repos@.to_multiset(),
        forall|n: Seq<char>| #[trigger] r@.filter(named(n)) == repos@.filter(named(n)),
{
    let ghost orig = repos@;
    let mut rest = repos;
    let mut out: Vec<RepoInfo> = Vec::new();
    proof {
        broadcast use vstd::multiset::group_multiset_axioms;
        assert(out@.to_multiset() =~= Multiset::empty()) by {
            vstd::seq_lib::to_multiset_len(out@);
        }
        assert forall|n: Seq<char>| #[trigger] orig.filter(named(n)) == out@.filter(named(n))
            + rest@.filter(named(n)) by {
            lemma_filter_none(out@, n);
            assert(Seq::<RepoInfo>::empty() + orig.filter(named(n)) =~= orig.filter(named(n)));
        }
    }
    while rest.len() > 0
        invariant
            sorted_by_name(out@),
            out@.to_multiset().add(rest@.to_multiset()) == orig.to_multiset(),
            forall|n: Seq<char>| #[trigger] orig.filter(named(n)) == out@.filter(named(n)) + rest@.filter(named(n)),
        decreases rest@.len(),
    {
        let ghost before_rest = rest@;
        let ghost before_out = out@;
        let x = rest.remove(0);
        proof {
            vstd::seq_lib::to_multiset_remove(before_rest, 0);
            assert(before_rest[0] == x);
            vstd::seq_lib::to_multiset_contains(before_rest, x);
        }
        let mut j: usize = 0;
        while j < out.len() && !sorts_after(out[j].name.as_str(), x.name.as_str())
            invariant
                out@ == before_out,
                j <= out@.len(),
                forall|k: int| 0 <= k < j ==> text_le(#[trigger] out@[k].name@, x.name@),
            decreases out@.len() - j,
        {
            j = j + 1;
        }
        proof {
            if j < out@.len() {
                lemma_text_le_total(out@[j as int].name@, x.name@);
            }
            assert forall|k: int| j <= k < out@.len() implies text_le(
                x.name@,
                #[trigger] out@[k].name@,
            ) by {
                if k > j {
                    lemma_text_le_transitive(x.name@, out@[j as int].name@, out@[k].name@);
                }
            }
            vstd::seq_lib::to_multiset_insert(before_out, j as int, x);
        }
        out.insert(j, x);
        proof {
            assert forall|a: int, b: int| 0 <= a < b < out@.len() implies text_le(
                #[trigger] out@[a].name@,
                #[trigger] out@[b].name@,
            ) by {
                if a < j && b > j {
                    lemma_text_le_transitive(
                        before_out[a].name@,
                        x.name@,
                        before_out[b - 1].name@,
                    );
                }
            }
            broadcast use vstd::multiset::group_multiset_axioms;
            assert(out@.to_multiset().add(rest@.to_multiset()) =~= orig.to_multiset());
            assert forall|n: Seq<char>| #[trigger] orig.filter(named(n)) == out@.filter(named(n))
                + rest@.filter(named(n)) by {
                assert forall|k: int| x.name@ == n && j <= k < before_out.len() implies (
                #[trigger] before_out[k]).name@ != n by {
                    if before_out[k].name@ == n {
                        lemma_text_le_reflexive(x.name@);
                        if k > j {
                            lemma_text_le_transitive(
                                before_out[j as int].name@,
                                before_out[k].name@,
                                x.name@,
                            );
                        }
                    }
                }
                lemma_filter_front(before_rest, n);
                assert(before_rest.drop_first() =~= rest@);
                assert(before_rest[0] == x);
                assert(orig.filter(named(n)) == before_out.filter(named(n)) + before_rest.filter(named(n)));
                if x.name@ == n {
                    lemma_filter_insert(before_out, j as int, x, n);
                    assert(before_out.filter(named(n)) + (seq![x] + rest@.filter(named(n)))
                        =~= before_out.filter(named(n)).push(x) + rest@.filter(named(n)));
                } else {
                    lemma_filter_insert(before_out, j as int, x, n);
                    assert(Seq::<RepoInfo>::empty() + rest@.filter(named(n)) =~= rest@.filter(named(n)));
                }
            }
        }
    }
    proof {
        broadcast use vstd::multiset::group_multiset_axioms;
        assert(rest@.to_multiset() =~= Multiset::empty()) by {
            vstd::seq_lib::to_multiset_len(rest@);
        }
        assert(out@.to_multiset() =~= orig.to_multiset());
        assert forall|n: Seq<char>| #[trigger] out@.filter(named(n)) == orig.filter(named(n)) by {
            lemma_filter_none(rest@, n);
            assert(out@.filter(named(n)) + Seq::<RepoInfo>::empty() =~= out@.filter(named(n)));
        }
    }
    out
}

/// What the repository scan does with one entry of a directory.
#[derive(Clone, Copy, Debug, PartialEq, Eq, Structural)]
pub enum EntryKind {
    /// Not a directory, or a hidden one: passed over.
    Skip,
    /// A directory holding `.git`: recorded as a repository.
    Repository,
    /// Another directory: searched one level deeper.
    Directory,
}

/// The scan's rule: files and hidden directories (whose name starts with
/// `.`) are passed over; a directory with a `.git` directory is a
/// repository; any other directory is searched.
pub open spec fn entry_kind(is_dir: bool, name: Option<Seq<char>>, has_git_dir: bool) -> EntryKind {
    if !is_dir {
        EntryKind::Skip
    } else if name matches Some(n) && n.len() > 0 && n[0] == '.' {
        EntryKind::Skip
    } else if has_git_dir {
        EntryKind::Repository
    } else {
        EntryKind::Directory
    }
}

/// Classifies one directory entry for the repository scan.
pub fn classify_entry(is_dir: bool, name: Option<&str>, has_git_dir: bool) -> (r: EntryKind)
    ensures
        r == entry_kind(
            is_dir,
            match name {
                Some(n) => Some(n@),
                None => None,
            },
            has_git_dir,
        ),
{
    if !is_dir {
        return EntryKind::Skip;
    }
    let hidden = match name {
        Some(n) => n.unicode_len() > 0 && n.get_char(0) == '.',
        None => false,
    };
    if hidden {
        EntryKind::Skip
    } else if has_git_dir {
        EntryKind::Repository
    } else {
        EntryKind::Directory
    }
}

/// The levels below each search root that the repository scan reads.
pub const SCAN_DEPTH: u32 = 2;

/// The number of directories under the home directory that the scan
/// searches.
pub const SCAN_ROOT_COUNT: usize = 5;

/// The name of search root `i`, a directory under the home directory.
pub open spec fn scan_root_title(i: int) -> Seq<char> {
    if i == 0 { "vibe"@ }
    else if i == 1 { "code"@ }
    else if i == 2 { "fm"@ }
    else if i == 3 { "solo"@ }
    else { "flock"@ }
}

/// The name of search root `i`.
pub fn scan_root(i: usize) -> (r: &'static str)
    requires
        i < SCAN_ROOT_COUNT,
    ensures
        r@ == scan_root_title(i as int),
{
    if i == 0 { "vibe" }
    else if i == 1 { "code" }
    else if i == 2 { "fm" }
    else if i == 3 { "solo" }
    else { "flock" }
}

/// Whether a directory reached with `depth` levels left is read at all.
pub fn scan_reads(depth: u32) -> (b: bool)
    ensures
        b == (depth > 0),
{
    depth > 0
}

/// The levels left for a subdirectory of a directory read with `depth`.
pub fn sub_depth(depth: u32) -> (r: u32)
    requires
        depth > 0,
    ensures
        r == depth - 1,
{
    depth - 1
}

} // verus!
